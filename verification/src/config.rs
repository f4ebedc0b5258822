//! The configuration of the notifier: read once, checked once, and not
//! changed afterwards.

use vstd::prelude::*;
use crate::schedule::CycleState;
use crate::text::chars_of;

verus! {

/// The name of the setting that holds the token of the chat service.
pub const TOKEN_VARIABLE: &'static str = "CHATWORK_API_TOKEN";

/// The name of the setting that holds the identifier of the room.
pub const ROOM_VARIABLE: &'static str = "CHATWORK_ROOM_ID";

/// The name of the setting that holds the minutes of a working interval.
pub const WORKING_MINUTES_VARIABLE: &'static str = "WORKING_MINUTES";

/// The name of the setting that holds the minutes of a resting interval.
pub const RESTING_MINUTES_VARIABLE: &'static str = "RESTING_MINUTES";

/// The name of the setting that holds the template announcing work.
pub const WORKING_MESSAGE_VARIABLE: &'static str = "MESSAGE_ON_START_WORKING";

/// The name of the setting that holds the template announcing rest.
pub const RESTING_MESSAGE_VARIABLE: &'static str = "MESSAGE_ON_START_RESTING";

/// The minutes of a working interval where none are set.
pub const DEFAULT_WORKING_MINUTES: u32 = 25;

/// The minutes of a resting interval where none are set.
pub const DEFAULT_RESTING_MINUTES: u32 = 5;

/// The template announcing work where none is set.
pub const DEFAULT_WORKING_MESSAGE: &'static str = "Working time! ~%time%";

/// The template announcing rest where none is set.
pub const DEFAULT_RESTING_MESSAGE: &'static str = "Resting time! ~%time%";

/// Why a configuration was refused.
#[derive(Clone, Copy, Debug, PartialEq, Eq, Structural)]
pub enum ConfigError {
    /// No token is set.
    MissingToken,
    /// No room is set.
    MissingRoomId,
    /// The minutes of a working interval are set to something that is not
    /// a number.
    WorkingMinutesNotANumber,
    /// The minutes of a resting interval are set to something that is not
    /// a number.
    RestingMinutesNotANumber,
    /// An interval is set to zero minutes.
    MinutesNotPositive,
}

impl ConfigError {
    /// What is wrong, in words.
    pub open spec fn text(self) -> Seq<char> {
        match self {
            ConfigError::MissingToken => "CHATWORK_API_TOKEN is not set"@,
            ConfigError::MissingRoomId => "CHATWORK_ROOM_ID is not set"@,
            ConfigError::WorkingMinutesNotANumber => "WORKING_MINUTES is not a number"@,
            ConfigError::RestingMinutesNotANumber => "RESTING_MINUTES is not a number"@,
            ConfigError::MinutesNotPositive => "WORKING_MINUTES and RESTING_MINUTES must be greater than 0"@,
        }
    }

    /// What is wrong, in words.
    pub fn message(&self) -> (message: &'static str)
        ensures
            message@ == self.text(),
    {
        match self {
            ConfigError::MissingToken => "CHATWORK_API_TOKEN is not set",
            ConfigError::MissingRoomId => "CHATWORK_ROOM_ID is not set",
            ConfigError::WorkingMinutesNotANumber => "WORKING_MINUTES is not a number",
            ConfigError::RestingMinutesNotANumber => "RESTING_MINUTES is not a number",
            ConfigError::MinutesNotPositive => "WORKING_MINUTES and RESTING_MINUTES must be greater than 0",
        }
    }
}

/// Whether `c` is one of the ten decimal digits.
pub open spec fn is_decimal_digit(c: char) -> bool {
    48 <= c as u32 <= 57
}

/// The number that the decimal digits `digits` write.
pub open spec fn decimal_value(digits: Seq<char>) -> nat
    decreases digits.len(),
{
    if digits.len() == 0 {
        0
    } else {
        decimal_value(digits.drop_last()) * 10 + (digits.last() as u32 - 48) as nat
    }
}

/// The digits of a number that may be written with a plus sign in front.
pub open spec fn without_plus_sign(text: Seq<char>) -> Seq<char> {
    if text.len() > 0 && text[0] == '+' {
        text.skip(1)
    } else {
        text
    }
}

/// The count of minutes that `text` writes: decimal digits, at least one,
/// with or without a plus sign in front and nothing else around them,
/// writing a number that 32 bits hold.
pub open spec fn parsed_minutes(text: Seq<char>) -> Option<u32> {
    let digits = without_plus_sign(text);
    if digits.len() > 0 && (forall|i: int| 0 <= i < digits.len() ==> is_decimal_digit(digits[i]))
        && decimal_value(digits) <= u32::MAX {
        Some(decimal_value(digits) as u32)
    } else {
        None
    }
}

/// More digits never write a smaller number.
proof fn lemma_decimal_value_grows(digits: Seq<char>, len: int)
    requires
        0 <= len <= digits.len(),
        forall|i: int| 0 <= i < digits.len() ==> is_decimal_digit(digits[i]),
    ensures
        decimal_value(digits.take(len)) <= decimal_value(digits),
    decreases digits.len() - len,
{
    if len == digits.len() {
        assert(digits.take(len) =~= digits);
    } else {
        let shorter = digits.drop_last();
        assert(shorter.take(len) =~= digits.take(len));
        assert forall|i: int| 0 <= i < shorter.len() implies is_decimal_digit(shorter[i]) by {
            assert(shorter[i] == digits[i]);
        }
        lemma_decimal_value_grows(shorter, len);
    }
}

/// Reads a count of minutes as `parsed_minutes` defines it.
pub fn parse_minutes(text: &str) -> (minutes: Option<u32>)
    ensures
        minutes == parsed_minutes(text@),
{
    let chars = chars_of(text);
    let n: usize = chars.len();
    let first: usize = if n > 0 && chars[0] == '+' {
        1
    } else {
        0
    };
    let ghost digits = without_plus_sign(text@);
    assert(digits =~= chars@.skip(first as int));
    if first == n {
        return None;
    }
    let mut value: u64 = 0;
    let mut at: usize = first;
    assert(digits.take(0) =~= Seq::<char>::empty());
    while at < n
        invariant
            first <= at <= n,
            n == chars.len(),
            digits == chars@.skip(first as int),
            digits == without_plus_sign(text@),
            forall|i: int| 0 <= i < at - first ==> is_decimal_digit(digits[i]),
            value == decimal_value(digits.take(at - first)),
            value <= u32::MAX,
        decreases n - at,
    {
        let c: u32 = chars[at] as u32;
        assert(digits[at - first] == chars@[at as int]);
        if c < 48 || c > 57 {
            assert(!is_decimal_digit(digits[at - first]));
            return None;
        }
        let ghost longer = digits.take(at - first + 1);
        assert(longer.drop_last() =~= digits.take(at - first));
        assert(longer.last() == digits[at - first]);
        let next: u64 = value * 10 + (c - 48) as u64;
        assert(next == decimal_value(longer));
        if next > u32::MAX as u64 {
            proof {
                if forall|i: int| 0 <= i < digits.len() ==> is_decimal_digit(digits[i]) {
                    lemma_decimal_value_grows(digits, at - first + 1);
                }
            }
            return None;
        }
        value = next;
        at += 1;
    }
    assert(digits.take(n - first) =~= digits);
    Some(value as u32)
}

/// The configuration as a mathematical value.
pub struct ConfigView {
    pub token: Seq<char>,
    pub room_id: Seq<char>,
    pub working_minutes: nat,
    pub resting_minutes: nat,
    pub message_on_start_working: Seq<char>,
    pub message_on_start_resting: Seq<char>,
}

impl ConfigView {
    /// Both intervals last a minute at least.
    pub open spec fn valid(self) -> bool {
        &&& 1 <= self.working_minutes <= u32::MAX
        &&& 1 <= self.resting_minutes <= u32::MAX
    }

    /// The minutes of an interval in the mode `state`.
    pub open spec fn minutes(self, state: CycleState) -> nat {
        match state {
            CycleState::Working => self.working_minutes,
            CycleState::Resting => self.resting_minutes,
        }
    }

    /// The template that announces an interval in the mode `state`.
    pub open spec fn template(self, state: CycleState) -> Seq<char> {
        match state {
            CycleState::Working => self.message_on_start_working,
            CycleState::Resting => self.message_on_start_resting,
        }
    }
}

/// The text of a setting that may be absent.
pub open spec fn setting_text(setting: Option<String>) -> Option<Seq<char>> {
    match setting {
        Some(text) => Some(text@),
        None => None,
    }
}

/// The minutes that a setting gives: the default where it is absent, else
/// what its text writes.
pub open spec fn minutes_setting(setting: Option<Seq<char>>, default: u32) -> Option<u32> {
    match setting {
        Some(text) => parsed_minutes(text),
        None => Some(default),
    }
}

/// The template that a setting gives: the default where it is absent.
pub open spec fn template_setting(setting: Option<Seq<char>>, default: Seq<char>) -> Seq<char> {
    match setting {
        Some(text) => text,
        None => default,
    }
}

/// The configuration that the six settings give, or the first reason to
/// refuse them: the token and the room must be set; the minutes, where
/// set, must be numbers and neither may be zero.
pub open spec fn configured(
    token: Option<Seq<char>>,
    room_id: Option<Seq<char>>,
    working_minutes: Option<Seq<char>>,
    resting_minutes: Option<Seq<char>>,
    message_on_start_working: Option<Seq<char>>,
    message_on_start_resting: Option<Seq<char>>,
) -> Result<ConfigView, ConfigError> {
    let working = minutes_setting(working_minutes, DEFAULT_WORKING_MINUTES);
    let resting = minutes_setting(resting_minutes, DEFAULT_RESTING_MINUTES);
    if token is None {
        Err(ConfigError::MissingToken)
    } else if room_id is None {
        Err(ConfigError::MissingRoomId)
    } else if working is None {
        Err(ConfigError::WorkingMinutesNotANumber)
    } else if resting is None {
        Err(ConfigError::RestingMinutesNotANumber)
    } else if working->0 < 1 || resting->0 < 1 {
        Err(ConfigError::MinutesNotPositive)
    } else {
        Ok(
            ConfigView {
                token: token->0,
                room_id: room_id->0,
                working_minutes: working->0 as nat,
                resting_minutes: resting->0 as nat,
                message_on_start_working: template_setting(
                    message_on_start_working,
                    DEFAULT_WORKING_MESSAGE@,
                ),
                message_on_start_resting: template_setting(
                    message_on_start_resting,
                    DEFAULT_RESTING_MESSAGE@,
                ),
            },
        )
    }
}

/// A checked configuration.
#[derive(Debug)]
pub struct Config {
    token: String,
    room_id: String,
    working_minutes: u32,
    resting_minutes: u32,
    message_on_start_working: String,
    message_on_start_resting: String,
}

impl View for Config {
    type V = ConfigView;

    closed spec fn view(&self) -> ConfigView {
        ConfigView {
            token: self.token@,
            room_id: self.room_id@,
            working_minutes: self.working_minutes as nat,
            resting_minutes: self.resting_minutes as nat,
            message_on_start_working: self.message_on_start_working@,
            message_on_start_resting: self.message_on_start_resting@,
        }
    }
}

impl Clone for Config {
    fn clone(&self) -> (copy: Config)
        ensures
            copy@ == self@,
    {
        proof {
            use_type_invariant(self);
        }
        Config {
            token: self.token.clone(),
            room_id: self.room_id.clone(),
            working_minutes: self.working_minutes,
            resting_minutes: self.resting_minutes,
            message_on_start_working: self.message_on_start_working.clone(),
            message_on_start_resting: self.message_on_start_resting.clone(),
        }
    }
}

impl Config {
    #[verifier::type_invariant]
    spec fn well_formed(self) -> bool {
        self@.valid()
    }

    /// Checks the six settings, each given as its text or as absent, and
    /// makes the configuration of them.
    pub fn from_settings(
        token: Option<String>,
        room_id: Option<String>,
        working_minutes: Option<String>,
        resting_minutes: Option<String>,
        message_on_start_working: Option<String>,
        message_on_start_resting: Option<String>,
    ) -> (outcome: Result<Config, ConfigError>)
        ensures
            match outcome {
                Ok(config) => config@.valid() && configured(
                    setting_text(token),
                    setting_text(room_id),
                    setting_text(working_minutes),
                    setting_text(resting_minutes),
                    setting_text(message_on_start_working),
                    setting_text(message_on_start_resting),
                ) == Ok::<ConfigView, ConfigError>(config@),
                Err(error) => configured(
                    setting_text(token),
                    setting_text(room_id),
                    setting_text(working_minutes),
                    setting_text(resting_minutes),
                    setting_text(message_on_start_working),
                    setting_text(message_on_start_resting),
                ) == Err::<ConfigView, ConfigError>(error),
            },
    {
        let token = match token {
            Some(token) => token,
            None => return Err(ConfigError::MissingToken),
        };
        let room_id = match room_id {
            Some(room_id) => room_id,
            None => return Err(ConfigError::MissingRoomId),
        };
        let working = match working_minutes {
            Some(text) => match parse_minutes(text.as_str()) {
                Some(minutes) => minutes,
                None => return Err(ConfigError::WorkingMinutesNotANumber),
            },
            None => DEFAULT_WORKING_MINUTES,
        };
        let resting = match resting_minutes {
            Some(text) => match parse_minutes(text.as_str()) {
                Some(minutes) => minutes,
                None => return Err(ConfigError::RestingMinutesNotANumber),
            },
            None => DEFAULT_RESTING_MINUTES,
        };
        if working < 1 || resting < 1 {
            return Err(ConfigError::MinutesNotPositive);
        }
        let message_on_start_working = match message_on_start_working {
            Some(text) => text,
            None => String::from_str(DEFAULT_WORKING_MESSAGE),
        };
        let message_on_start_resting = match message_on_start_resting {
            Some(text) => text,
            None => String::from_str(DEFAULT_RESTING_MESSAGE),
        };
        Ok(
            Config {
                token,
                room_id,
                working_minutes: working,
                resting_minutes: resting,
                message_on_start_working,
                message_on_start_resting,
            },
        )
    }

    /// The token of the chat service.
    pub fn token(&self) -> (token: &str)
        ensures
            token@ == self@.token,
    {
        self.token.as_str()
    }

    /// The identifier of the room.
    pub fn room_id(&self) -> (room_id: &str)
        ensures
            room_id@ == self@.room_id,
    {
        self.room_id.as_str()
    }

    /// The minutes of a working interval.
    pub fn working_minutes(&self) -> (minutes: u32)
        ensures
            minutes == self@.working_minutes,
            minutes >= 1,
    {
        proof {
            use_type_invariant(self);
        }
        self.working_minutes
    }

    /// The minutes of a resting interval.
    pub fn resting_minutes(&self) -> (minutes: u32)
        ensures
            minutes == self@.resting_minutes,
            minutes >= 1,
    {
        proof {
            use_type_invariant(self);
        }
        self.resting_minutes
    }

    /// The template that announces work.
    pub fn message_on_start_working(&self) -> (template: &str)
        ensures
            template@ == self@.message_on_start_working,
    {
        self.message_on_start_working.as_str()
    }

    /// The template that announces rest.
    pub fn message_on_start_resting(&self) -> (template: &str)
        ensures
            template@ == self@.message_on_start_resting,
    {
        self.message_on_start_resting.as_str()
    }

    /// The minutes of an interval in the mode `state`.
    pub fn minutes_for(&self, state: CycleState) -> (minutes: u32)
        ensures
            minutes == self@.minutes(state),
            minutes >= 1,
    {
        match state {
            CycleState::Working => self.working_minutes(),
            CycleState::Resting => self.resting_minutes(),
        }
    }

    /// The template that announces an interval in the mode `state`.
    pub fn template_for(&self, state: CycleState) -> (template: &str)
        ensures
            template@ == self@.template(state),
    {
        match state {
            CycleState::Working => self.message_on_start_working(),
            CycleState::Resting => self.message_on_start_resting(),
        }
    }
}

/// Minutes that are no number, or zero, are refused whatever the other
/// settings are: no configuration comes of them.
pub proof fn lemma_bad_minutes_are_refused(
    token: Option<Seq<char>>,
    room_id: Option<Seq<char>>,
    working_minutes: Option<Seq<char>>,
    resting_minutes: Option<Seq<char>>,
    message_on_start_working: Option<Seq<char>>,
    message_on_start_resting: Option<Seq<char>>,
)
    requires
        ({
            ||| working_minutes matches Some(text) && (parsed_minutes(text) is None
                || parsed_minutes(text) == Some(0u32))
            ||| resting_minutes matches Some(text) && (parsed_minutes(text) is None
                || parsed_minutes(text) == Some(0u32))
        }),
    ensures
        configured(
            token,
            room_id,
            working_minutes,
            resting_minutes,
            message_on_start_working,
            message_on_start_resting,
        ) is Err,
{
}

/// A text with a character that is no digit, a plus sign in front aside,
/// is no number: a minus sign, a letter or a blank makes it so.
pub proof fn lemma_stray_character_is_no_number(text: Seq<char>, at: int)
    requires
        0 <= at < text.len(),
        !is_decimal_digit(text[at]),
        at > 0 || text[0] != '+',
    ensures
        parsed_minutes(text) is None,
{
    let digits = without_plus_sign(text);
    if text[0] == '+' {
        assert(digits[at - 1] == text[at]);
    } else {
        assert(digits[at] == text[at]);
    }
}

} // verus!
