use vstd::prelude::*;

verus! {

/// Commands carried in the header of every packet.
#[derive(Debug, PartialEq, Eq, Clone, Copy, Structural)]
pub enum RexCommand {
    Title,
    TitleReturn,
    Group,
    GroupReturn,
    Cast,
    CastReturn,
    Login,
    LoginReturn,
    Check,
    CheckReturn,
    RegTitle,
    RegTitleReturn,
    DelTitle,
    DelTitleReturn,
    /// Acknowledgement from a receiver to the server.
    Ack,
    /// Acknowledgement result from the server to the sender.
    AckReturn,
}

/// The number that stands for a command on the wire.
pub open spec fn command_code(c: RexCommand) -> u32 {
    match c {
        RexCommand::Title => 9901,
        RexCommand::TitleReturn => 9902,
        RexCommand::Group => 9903,
        RexCommand::GroupReturn => 9904,
        RexCommand::Cast => 9905,
        RexCommand::CastReturn => 9906,
        RexCommand::Login => 9907,
        RexCommand::LoginReturn => 9908,
        RexCommand::Check => 9909,
        RexCommand::CheckReturn => 9910,
        RexCommand::RegTitle => 9911,
        RexCommand::RegTitleReturn => 9912,
        RexCommand::DelTitle => 9913,
        RexCommand::DelTitleReturn => 9914,
        RexCommand::Ack => 9915,
        RexCommand::AckReturn => 9916,
    }
}

/// Whether a number on the wire names a command.
pub open spec fn is_command_code(v: u32) -> bool {
    9901 <= v <= 9916
}

/// The command that a wire number decodes to; unknown numbers decode to `Login`.
pub open spec fn command_of_code(v: u32) -> RexCommand {
    if v == 9901 { RexCommand::Title }
    else if v == 9902 { RexCommand::TitleReturn }
    else if v == 9903 { RexCommand::Group }
    else if v == 9904 { RexCommand::GroupReturn }
    else if v == 9905 { RexCommand::Cast }
    else if v == 9906 { RexCommand::CastReturn }
    else if v == 9907 { RexCommand::Login }
    else if v == 9908 { RexCommand::LoginReturn }
    else if v == 9909 { RexCommand::Check }
    else if v == 9910 { RexCommand::CheckReturn }
    else if v == 9911 { RexCommand::RegTitle }
    else if v == 9912 { RexCommand::RegTitleReturn }
    else if v == 9913 { RexCommand::DelTitle }
    else if v == 9914 { RexCommand::DelTitleReturn }
    else if v == 9915 { RexCommand::Ack }
    else if v == 9916 { RexCommand::AckReturn }
    else { RexCommand::Login }
}

impl RexCommand {
    /// Decodes a wire number; a number that names no command yields `Login`.
    pub fn from_u32(value: u32) -> (c: RexCommand)
        ensures
            c == command_of_code(value),
            is_command_code(value) ==> command_code(c) == value,
            value == 9901 ==> c == RexCommand::Title,
            value == 9902 ==> c == RexCommand::TitleReturn,
            value == 9903 ==> c == RexCommand::Group,
            value == 9904 ==> c == RexCommand::GroupReturn,
            value == 9905 ==> c == RexCommand::Cast,
            value == 9906 ==> c == RexCommand::CastReturn,
            value == 9907 ==> c == RexCommand::Login,
            value == 9908 ==> c == RexCommand::LoginReturn,
            value == 9909 ==> c == RexCommand::Check,
            value == 9910 ==> c == RexCommand::CheckReturn,
            value == 9911 ==> c == RexCommand::RegTitle,
            value == 9912 ==> c == RexCommand::RegTitleReturn,
            value == 9913 ==> c == RexCommand::DelTitle,
            value == 9914 ==> c == RexCommand::DelTitleReturn,
            value == 9915 ==> c == RexCommand::Ack,
            value == 9916 ==> c == RexCommand::AckReturn,
            !(9901 <= value <= 9916) ==> c == RexCommand::Login,
    {
        match value {
            9901 => RexCommand::Title,
            9902 => RexCommand::TitleReturn,
            9903 => RexCommand::Group,
            9904 => RexCommand::GroupReturn,
            9905 => RexCommand::Cast,
            9906 => RexCommand::CastReturn,
            9907 => RexCommand::Login,
            9908 => RexCommand::LoginReturn,
            9909 => RexCommand::Check,
            9910 => RexCommand::CheckReturn,
            9911 => RexCommand::RegTitle,
            9912 => RexCommand::RegTitleReturn,
            9913 => RexCommand::DelTitle,
            9914 => RexCommand::DelTitleReturn,
            9915 => RexCommand::Ack,
            9916 => RexCommand::AckReturn,
            _ => RexCommand::Login,
        }
    }

    /// The wire number of the command.
    pub fn as_u32(self) -> (v: u32)
        ensures
            v == command_code(self),
            is_command_code(v),
            self == RexCommand::Title ==> v == 9901,
            self == RexCommand::TitleReturn ==> v == 9902,
            self == RexCommand::Group ==> v == 9903,
            self == RexCommand::GroupReturn ==> v == 9904,
            self == RexCommand::Cast ==> v == 9905,
            self == RexCommand::CastReturn ==> v == 9906,
            self == RexCommand::Login ==> v == 9907,
            self == RexCommand::LoginReturn ==> v == 9908,
            self == RexCommand::Check ==> v == 9909,
            self == RexCommand::CheckReturn ==> v == 9910,
            self == RexCommand::RegTitle ==> v == 9911,
            self == RexCommand::RegTitleReturn ==> v == 9912,
            self == RexCommand::DelTitle ==> v == 9913,
            self == RexCommand::DelTitleReturn ==> v == 9914,
            self == RexCommand::Ack ==> v == 9915,
            self == RexCommand::AckReturn ==> v == 9916,
    {
        match self {
            RexCommand::Title => 9901,
            RexCommand::TitleReturn => 9902,
            RexCommand::Group => 9903,
            RexCommand::GroupReturn => 9904,
            RexCommand::Cast => 9905,
            RexCommand::CastReturn => 9906,
            RexCommand::Login => 9907,
            RexCommand::LoginReturn => 9908,
            RexCommand::Check => 9909,
            RexCommand::CheckReturn => 9910,
            RexCommand::RegTitle => 9911,
            RexCommand::RegTitleReturn => 9912,
            RexCommand::DelTitle => 9913,
            RexCommand::DelTitleReturn => 9914,
            RexCommand::Ack => 9915,
            RexCommand::AckReturn => 9916,
        }
    }

    /// Whether the command belongs to the acknowledgement exchange.
    pub fn is_ack_command(self) -> (b: bool)
        ensures
            b <==> (self == RexCommand::Ack || self == RexCommand::AckReturn),
    {
        match self {
            RexCommand::Ack | RexCommand::AckReturn => true,
            _ => false,
        }
    }
}

/// Decoding the wire number of a command gives the command back.
pub proof fn lemma_command_code_roundtrip(c: RexCommand)
    ensures
        command_of_code(command_code(c)) == c,
        is_command_code(command_code(c)),
{
}

/// The wire numbers are the protocol's fixed values: the commands are
/// numbered from 9901 on, in the order Title, TitleReturn, Group,
/// GroupReturn, Cast, CastReturn, Login, LoginReturn, Check, CheckReturn,
/// RegTitle, RegTitleReturn, DelTitle, DelTitleReturn, Ack, AckReturn; and
/// each of those numbers decodes to its command.
pub proof fn lemma_command_wire_numbers()
    ensures
        command_code(RexCommand::Title) == 9901,
        command_of_code(9901) == RexCommand::Title,
        command_code(RexCommand::TitleReturn) == 9902,
        command_of_code(9902) == RexCommand::TitleReturn,
        command_code(RexCommand::Group) == 9903,
        command_of_code(9903) == RexCommand::Group,
        command_code(RexCommand::GroupReturn) == 9904,
        command_of_code(9904) == RexCommand::GroupReturn,
        command_code(RexCommand::Cast) == 9905,
        command_of_code(9905) == RexCommand::Cast,
        command_code(RexCommand::CastReturn) == 9906,
        command_of_code(9906) == RexCommand::CastReturn,
        command_code(RexCommand::Login) == 9907,
        command_of_code(9907) == RexCommand::Login,
        command_code(RexCommand::LoginReturn) == 9908,
        command_of_code(9908) == RexCommand::LoginReturn,
        command_code(RexCommand::Check) == 9909,
        command_of_code(9909) == RexCommand::Check,
        command_code(RexCommand::CheckReturn) == 9910,
        command_of_code(9910) == RexCommand::CheckReturn,
        command_code(RexCommand::RegTitle) == 9911,
        command_of_code(9911) == RexCommand::RegTitle,
        command_code(RexCommand::RegTitleReturn) == 9912,
        command_of_code(9912) == RexCommand::RegTitleReturn,
        command_code(RexCommand::DelTitle) == 9913,
        command_of_code(9913) == RexCommand::DelTitle,
        command_code(RexCommand::DelTitleReturn) == 9914,
        command_of_code(9914) == RexCommand::DelTitleReturn,
        command_code(RexCommand::Ack) == 9915,
        command_of_code(9915) == RexCommand::Ack,
        command_code(RexCommand::AckReturn) == 9916,
        command_of_code(9916) == RexCommand::AckReturn,
{
}

/// The return codes' wire numbers are the protocol's fixed values: Success
/// 0, Error 1, NoTarget 8802, AckTimeout 8803, AckFailed 8804; each decodes
/// to its return code.
pub proof fn lemma_retcode_wire_numbers()
    ensures
        retcode_code(RetCode::Success) == 0,
        retcode_of_code(0) == RetCode::Success,
        retcode_code(RetCode::Error) == 1,
        retcode_of_code(1) == RetCode::Error,
        retcode_code(RetCode::NoTarget) == 8802,
        retcode_of_code(8802) == RetCode::NoTarget,
        retcode_code(RetCode::AckTimeout) == 8803,
        retcode_of_code(8803) == RetCode::AckTimeout,
        retcode_code(RetCode::AckFailed) == 8804,
        retcode_of_code(8804) == RetCode::AckFailed,
{
}

/// Distinct commands have distinct wire numbers.
pub proof fn lemma_command_code_injective(a: RexCommand, b: RexCommand)
    ensures
        command_code(a) == command_code(b) ==> a == b,
{
}

/// Return codes carried in the header of every packet.
#[derive(Debug, PartialEq, Eq, Clone, Copy, Structural)]
pub enum RetCode {
    Success,
    Error,
    NoTarget,
    /// The receiver did not acknowledge in time.
    AckTimeout,
    /// The receiver refused the message.
    AckFailed,
}

/// The number that stands for a return code on the wire.
pub open spec fn retcode_code(r: RetCode) -> u32 {
    match r {
        RetCode::Success => 0,
        RetCode::Error => 1,
        RetCode::NoTarget => 8802,
        RetCode::AckTimeout => 8803,
        RetCode::AckFailed => 8804,
    }
}

/// Whether a number on the wire names a return code.
pub open spec fn is_retcode_code(v: u32) -> bool {
    v == 0 || v == 1 || v == 8802 || v == 8803 || v == 8804
}

/// The return code that a wire number decodes to; unknown numbers decode to `Error`.
pub open spec fn retcode_of_code(v: u32) -> RetCode {
    if v == 0 { RetCode::Success }
    else if v == 8802 { RetCode::NoTarget }
    else if v == 8803 { RetCode::AckTimeout }
    else if v == 8804 { RetCode::AckFailed }
    else { RetCode::Error }
}

impl RetCode {
    /// Decodes a wire number; a number that names no return code yields `Error`.
    pub fn from_u32(value: u32) -> (r: RetCode)
        ensures
            r == retcode_of_code(value),
            value == 0 ==> r == RetCode::Success,
            value == 1 ==> r == RetCode::Error,
            value == 8802 ==> r == RetCode::NoTarget,
            value == 8803 ==> r == RetCode::AckTimeout,
            value == 8804 ==> r == RetCode::AckFailed,
            !(value == 0 || value == 1 || value == 8802 || value == 8803 || value == 8804) ==> r == RetCode::Error,
    {
        match value {
            0 => RetCode::Success,
            1 => RetCode::Error,
            8802 => RetCode::NoTarget,
            8803 => RetCode::AckTimeout,
            8804 => RetCode::AckFailed,
            _ => RetCode::Error,
        }
    }

    /// The wire number of the return code.
    pub fn as_u32(self) -> (v: u32)
        ensures
            v == retcode_code(self),
            is_retcode_code(v),
            self == RetCode::Success ==> v == 0,
            self == RetCode::Error ==> v == 1,
            self == RetCode::NoTarget ==> v == 8802,
            self == RetCode::AckTimeout ==> v == 8803,
            self == RetCode::AckFailed ==> v == 8804,
    {
        match self {
            RetCode::Success => 0,
            RetCode::Error => 1,
            RetCode::NoTarget => 8802,
            RetCode::AckTimeout => 8803,
            RetCode::AckFailed => 8804,
        }
    }

    pub fn is_success(self) -> (b: bool)
        ensures
            b <==> self == RetCode::Success,
    {
        match self {
            RetCode::Success => true,
            _ => false,
        }
    }

    /// A human-readable description of the return code.
    pub fn description(&self) -> (s: &'static str)
        ensures
            s@ == retcode_description(*self),
    {
        match self {
            RetCode::Success => "Success",
            RetCode::Error => "Error",
            RetCode::NoTarget => "No target available",
            RetCode::AckTimeout => "ACK timeout",
            RetCode::AckFailed => "ACK failed",
        }
    }
}

/// The description text of each return code.
pub open spec fn retcode_description(r: RetCode) -> Seq<char> {
    match r {
        RetCode::Success => "Success"@,
        RetCode::Error => "Error"@,
        RetCode::NoTarget => "No target available"@,
        RetCode::AckTimeout => "ACK timeout"@,
        RetCode::AckFailed => "ACK failed"@,
    }
}

/// Decoding the wire number of a return code gives the return code back.
pub proof fn lemma_retcode_code_roundtrip(r: RetCode)
    ensures
        retcode_of_code(retcode_code(r)) == r,
        is_retcode_code(retcode_code(r)),
{
}

} // verus!
