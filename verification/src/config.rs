//! How the server is set up.

use vstd::prelude::*;
use crate::secrets::alphanumeric;
use crate::secrets::generate_secret;
use crate::secrets::TOKEN_LEN;
use crate::text::decimal;
use crate::text::is_empty;
use crate::text::join3;
use crate::text::optional_view;
use crate::text::trim;
use crate::text::trimmed;

verus! {

/// The number of bytes that may go through a stream unless the server is told otherwise.
pub const DEFAULT_MAX_STREAM_BYTES: u64 = 1024 * 1024 * 1024;

/// The number of seconds that a stream stays open unless the server is told otherwise.
pub const DEFAULT_STREAM_TTL_SECS: u64 = 600;

/// The file that the server keeps its token in.
pub const SERVER_TOKEN_FILE: &'static str = "server_token.txt";

/// The folder that the server shares unless it is told otherwise.
pub const DEFAULT_SERVER_SHARED_DIR: &'static str = "./server_files";

/// The folder that the server saves files in unless it is told otherwise.
pub const DEFAULT_SERVER_DOWNLOAD_DIR: &'static str = "./server_downloads";

/// Where the server listens unless it is told otherwise.
pub const DEFAULT_SERVER_BIND: &'static str = "0.0.0.0:5000";

/// Where the token of the server comes from.
pub enum ServerToken {
    /// It was configured.
    Configured { token: String },
    /// It stands in the token file.
    Kept { token: String },
    /// It is new, and is to be written to the token file.
    Fresh { token: String },
}

/// Chooses the token of the server: the configured one, or else the one in the token file, or else
/// a new one. White space around a token does not count. A configured token may not be empty.
pub fn server_token(configured: Option<&str>, file: Option<&str>) -> (choice: Result<
    ServerToken,
    String,
>)
    ensures
        match (optional_view(configured), optional_view(file)) {
            (Some(text), _) => if trimmed(text).len() == 0 {
                choice matches Err(complaint) && complaint@ == "SERVER_TOKEN cannot be empty"@
            } else {
                choice matches Ok(ServerToken::Configured { token }) && token@ == trimmed(text)
            },
            (None, Some(text)) => choice matches Ok(ServerToken::Kept { token }) && token@ == trimmed(
                text,
            ),
            (None, None) => choice matches Ok(ServerToken::Fresh { token }) && token@.len()
                == TOKEN_LEN && forall|i: int|
                0 <= i < TOKEN_LEN ==> alphanumeric(#[trigger] token@[i]),
        },
{
    match configured {
        Some(text) => {
            let token = trim(text);
            if is_empty(token.as_str()) {
                return Err("SERVER_TOKEN cannot be empty".to_string());
            }
            Ok(ServerToken::Configured { token })
        },
        None => match file {
            Some(text) => Ok(ServerToken::Kept { token: trim(text) }),
            None => Ok(ServerToken::Fresh { token: generate_secret(TOKEN_LEN) }),
        },
    }
}

/// A token that the server has made stands in its file without white space around it: when the
/// server starts again it keeps that very token.
pub proof fn fresh_tokens_are_kept(token: Seq<char>)
    requires
        forall|i: int| 0 <= i < token.len() ==> alphanumeric(#[trigger] token[i]),
    ensures
        trimmed(token) == token,
{
    if token.len() > 0 {
        assert(alphanumeric(token[0]) && alphanumeric(token[token.len() - 1]));
    }
}

/// Whether `c` is a decimal digit.
pub open spec fn is_digit(c: char) -> bool {
    '0' <= c <= '9'
}

/// Whether `s` is a row of digits: not empty, and every character a digit.
pub open spec fn all_digits(s: Seq<char>) -> bool {
    &&& s.len() > 0
    &&& forall|i: int| 0 <= i < s.len() ==> is_digit(#[trigger] s[i])
}

/// The number that a row of digits stands for.
pub open spec fn digits_value(digits: Seq<char>) -> nat
    decreases digits.len(),
{
    if digits.len() == 0 {
        0
    } else {
        10 * digits_value(digits.drop_last()) + (digits.last() as nat - '0' as nat) as nat
    }
}

/// The number that `text` stands for: at least one digit and nothing else, but for a plus sign that
/// may stand in front.
pub open spec fn number_in(text: Seq<char>) -> Option<nat> {
    let digits = if text.len() > 0 && text[0] == '+' {
        text.drop_first()
    } else {
        text
    };
    if all_digits(digits) {
        Some(digits_value(digits))
    } else {
        None
    }
}

/// The words in which `str::parse::<u64>` says why `text` is not a number of 64 bits.
pub uninterp spec fn parse_error(text: Seq<char>) -> Seq<char>;

/// `str::parse::<u64>`: the number that the text stands for, if it is one of 64 bits. An error is
/// given by what its `to_string` says; these words are not described further.
#[verifier::external_body]
fn parse_u64(text: &str) -> (number: Result<u64, String>)
    ensures
        match number {
            Ok(n) => number_in(text@) == Some(n as nat),
            Err(words) => words@ == parse_error(text@) && match number_in(text@) {
                Some(n) => n > u64::MAX,
                None => true,
            },
        },
{
    match text.parse::<u64>() {
        Ok(n) => Ok(n),
        Err(error) => Err(error.to_string()),
    }
}

/// What is said of a setting that is no number.
pub open spec fn invalid_setting(name: Seq<char>, words: Seq<char>) -> Seq<char> {
    "Invalid "@ + name + " value: "@ + words
}

/// Takes the outcome of reading the setting `name` as a number.
pub fn number_setting(name: &str, parsed: Result<u64, String>) -> (setting: Result<u64, String>)
    ensures
        match (parsed, setting) {
            (Ok(n), Ok(number)) => number == n,
            (Err(words), Err(complaint)) => complaint@ == invalid_setting(name@, words@),
            _ => false,
        },
{
    match parsed {
        Ok(n) => Ok(n),
        Err(words) => Err(join3("Invalid ", name, " value: ").concat(words.as_str())),
    }
}

/// The setting `name`: its value as a number, or the default where it is not set.
pub fn read_u64_env(name: &str, value: Option<&str>, default_value: u64) -> (setting: Result<
    u64,
    String,
>)
    ensures
        match value {
            None => setting == Ok::<u64, String>(default_value),
            Some(text) => match number_in(text@) {
                Some(n) if n <= u64::MAX => setting matches Ok(number) && number == n,
                _ => setting matches Err(complaint) && complaint@ == invalid_setting(
                    name@,
                    parse_error(text@),
                ),
            },
        },
{
    match value {
        None => Ok(default_value),
        Some(text) => number_setting(name, parse_u64(text)),
    }
}

/// A number that was written in decimal is read back.
pub proof fn decimal_is_read_back(n: nat)
    ensures
        number_in(decimal(n)) == Some(n),
{
    decimal_is_digits(n);
    assert(is_digit(decimal(n)[0]));
}

proof fn decimal_is_digits(n: nat)
    ensures
        all_digits(decimal(n)),
        digits_value(decimal(n)) == n,
    decreases n,
{
    let digits = decimal(n);
    if n < 10 {
        assert(digits.drop_last() == Seq::<char>::empty());
        assert(digits_value(digits.drop_last()) == 0);
    } else {
        decimal_is_digits(n / 10);
        assert(digits.drop_last() == decimal(n / 10));
    }
}

/// One more digit makes ten times the number and the digit; a plus sign in front makes no
/// difference.
pub proof fn digits_go_by_tens(digits: Seq<char>, d: nat)
    requires
        all_digits(digits),
        d < 10,
    ensures
        number_in(digits + seq![(0x30 + d) as char]) == Some(
            10 * number_in(digits)->0 + d,
        ),
        number_in(seq![(0x30 + d) as char]) == Some(d),
        number_in(seq!['+'] + digits) == number_in(digits),
{
    let c = (0x30 + d) as char;
    assert(is_digit(digits[0]));
    let more = digits + seq![c];
    assert(more.drop_last() == digits);
    assert forall|i: int| 0 <= i < more.len() implies is_digit(#[trigger] more[i]) by {
        if i < digits.len() {
            assert(more[i] == digits[i]);
        }
    }
    assert(more[0] == digits[0]);
    assert(all_digits(more));
    let one = seq![c];
    assert(one.drop_last() == Seq::<char>::empty());
    assert(digits_value(one.drop_last()) == 0);
    assert(all_digits(one));
    assert((seq!['+'] + digits).drop_first() == digits);
}

/// What stands alone where nothing is configured.
pub proof fn the_defaults()
    ensures
        DEFAULT_MAX_STREAM_BYTES == 1_073_741_824,
        DEFAULT_STREAM_TTL_SECS == 600,
        SERVER_TOKEN_FILE@ == "server_token.txt"@,
        DEFAULT_SERVER_SHARED_DIR@ == "./server_files"@,
        DEFAULT_SERVER_DOWNLOAD_DIR@ == "./server_downloads"@,
        DEFAULT_SERVER_BIND@ == "0.0.0.0:5000"@,
        crate::client::DEFAULT_SHARED_DIR@ == "./shared_files"@,
        crate::client::DEFAULT_SERVER_URL@ == "127.0.0.1:5000"@,
        crate::client::DOWNLOADS_DIR@ == "./downloads"@,
{
}

} // verus!
