//! Values the library takes from the running system: the clock, the
//! process and user identity, fresh identifiers, the number of CPUs.
//! Every function here depends on the machine or on chance, so each one
//! promises only what holds of every outcome.
use vstd::prelude::*;

verus! {

/// A filesystem path, carried through the library unread.
#[verifier::external_type_specification]
#[verifier::external_body]
pub struct ExPathBuf(std::path::PathBuf);

/// A borrowed filesystem path, carried through the library unread.
#[verifier::external_type_specification]
#[verifier::external_body]
pub struct ExPath(std::path::Path);

/// A point in time of the system clock, carried through unread.
#[verifier::external_type_specification]
#[verifier::external_body]
pub struct ExSystemTime(std::time::SystemTime);

/// The error of comparing two clock readings the wrong way round.
#[verifier::external_type_specification]
#[verifier::external_body]
pub struct ExSystemTimeError(std::time::SystemTimeError);

/// An input/output error.
#[verifier::external_type_specification]
#[verifier::external_body]
pub struct ExIoError(std::io::Error);

/// The current time (`std::time::SystemTime::now`); nothing is claimed of it.
#[verifier::external_body]
pub(crate) fn now() -> std::time::SystemTime {
    std::time::SystemTime::now()
}

/// How long after `earlier` the time `later` is, as
/// `SystemTime::duration_since` gives it: `Some` of the span when `later`
/// is not before `earlier`, `None` when it is. It depends on the two
/// readings alone.
pub uninterp spec fn elapsed_between(later: std::time::SystemTime, earlier: std::time::SystemTime) -> Option<std::time::Duration>;

/// How long after `earlier` the time `later` is
/// (`std::time::SystemTime::duration_since`): the span that
/// `elapsed_between` names, or an error exactly when it names none.
#[verifier::external_body]
pub(crate) fn duration_between(
    later: &std::time::SystemTime,
    earlier: std::time::SystemTime,
) -> (r: Result<std::time::Duration, std::time::SystemTimeError>)
    ensures
        match r {
            Ok(d) => elapsed_between(*later, earlier) == Some(d),
            Err(_) => elapsed_between(*later, earlier) is None,
        },
{
    later.duration_since(earlier)
}

/// The message of a clock error (its `Display` form); nothing is claimed of
/// the text.
#[verifier::external_body]
pub(crate) fn time_error_text(e: &std::time::SystemTimeError) -> String {
    format!("{}", e)
}

/// The path whose text is `text` (`PathBuf::from`); the same text gives the
/// same path.
pub uninterp spec fn path_of(text: Seq<char>) -> std::path::PathBuf;

/// The path whose text is `text` (`PathBuf::from` on a `String`).
#[verifier::external_body]
pub(crate) fn path_from(text: String) -> (r: std::path::PathBuf)
    ensures
        r == path_of(text@),
{
    std::path::PathBuf::from(text)
}

/// The span of `n` whole seconds (`Duration::from_secs`); the same number
/// gives the same span.
pub uninterp spec fn seconds(n: u64) -> std::time::Duration;

/// The span of `n` whole seconds (`Duration::from_secs`).
#[verifier::external_body]
pub(crate) fn duration_from_secs(n: u64) -> (r: std::time::Duration)
    ensures
        r == seconds(n),
{
    std::time::Duration::from_secs(n)
}

/// A copy of a path (`PathBuf::clone`): the same path.
#[verifier::external_body]
pub(crate) fn copy_path(p: &std::path::PathBuf) -> (r: std::path::PathBuf)
    ensures
        r == *p,
{
    p.clone()
}

/// The effective user id of this process (`nix::unistd::Uid::effective`);
/// nothing is claimed of its value.
#[verifier::external_body]
pub(crate) fn effective_uid() -> u32 {
    nix::unistd::Uid::effective().as_raw()
}

/// The id of this process (`nix::unistd::getpid`); nothing is claimed of its
/// value.
#[verifier::external_body]
pub(crate) fn current_pid() -> u32 {
    nix::unistd::getpid().as_raw() as u32
}

/// A lowercase hexadecimal digit.
pub open spec fn is_lower_hex(c: char) -> bool {
    ('0' <= c && c <= '9') || ('a' <= c && c <= 'f')
}

/// The hyphenated lowercase text of a version-4 UUID: 36 characters,
/// hyphens at 8, 13, 18 and 23, hexadecimal digits elsewhere, the version
/// digit `4` at 14 and a variant digit `8`, `9`, `a` or `b` at 19.
pub open spec fn is_uuid_v4_text(s: Seq<char>) -> bool {
    &&& s.len() == 36
    &&& forall|i: int|
        0 <= i < 36 ==> if i == 8 || i == 13 || i == 18 || i == 23 {
            #[trigger] s[i] == '-'
        } else {
            is_lower_hex(s[i])
        }
    &&& s[14] == '4'
    &&& (s[19] == '8' || s[19] == '9' || s[19] == 'a' || s[19] == 'b')
}

/// A fresh random identifier (`uuid::Uuid::new_v4`) in its hyphenated text
/// form (`Display`): `new_v4` sets the version bits to 4 and the variant
/// bits to `10`, and the text is lowercase hexadecimal with hyphens. Which
/// identifier comes out is chance.
#[verifier::external_body]
pub(crate) fn new_uuid_string() -> (r: String)
    ensures
        is_uuid_v4_text(r@),
{
    uuid::Uuid::new_v4().to_string()
}

/// The number of CPUs this process may use (`num_cpus::get`), which its
/// documentation says is always at least one.
#[verifier::external_body]
pub(crate) fn cpu_count() -> (r: usize)
    ensures
        r >= 1,
{
    num_cpus::get()
}

} // verus!
