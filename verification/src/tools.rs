//! The annotation tools offered by the toolbar.

use vstd::prelude::*;
use vstd::string::StringExecFns;

verus! {

/// A tool of the toolbar: `Select` draws nothing; the others place a
/// rectangle, an arrow, a freehand line or a text label.
#[derive(Clone, Copy, PartialEq, Eq, Structural, Debug)]
pub enum Tool {
    Select,
    Rectangle,
    Arrow,
    Freehand,
    Text,
}

/// The toolbar. Its widgets are laid out by the host UI, which reports the
/// undo and redo buttons to a `Canvas`.
pub struct ToolBar;

/// The file name offered when saving an annotated capture taken at `stamp`.
pub open spec fn save_file_name(stamp: Seq<char>) -> Seq<char> {
    "截图_"@ + stamp + ".png"@
}

/// Whether `c` is an ASCII decimal digit.
pub open spec fn is_ascii_digit(c: char) -> bool {
    '0' <= c <= '9'
}

/// Whether `stamp` ends in a date and time written `YYYYmmdd_HHMMSS`: its last
/// fifteen characters are eight digits, an underscore and six digits. Years
/// past 9999 only add characters in front.
pub open spec fn is_timestamp(stamp: Seq<char>) -> bool {
    &&& stamp.len() >= 15
    &&& stamp[stamp.len() - 7] == '_'
    &&& forall|i: int| stamp.len() - 15 <= i < stamp.len() && i != stamp.len() - 7
        ==> is_ascii_digit(#[trigger] stamp[i])
}

/// The `chrono` format of a save time stamp: zero-padded year, month, day,
/// an underscore, then zero-padded hour, minute and second.
pub open spec fn timestamp_pattern() -> Seq<char> {
    "%Y%m%d_%H%M%S"@
}

/// The local date and time formatted with `pattern`, from
/// `chrono::Local::now().format(pattern)`. Only the pattern
/// `%Y%m%d_%H%M%S` is admitted (`to_string` panics on a pattern chrono cannot
/// format). Which instant it shows depends on the clock and the time zone, so
/// only its shape is stated: the zero-padded fields that `%Y`, `%m`, `%d`,
/// `%H`, `%M`, `%S` write (`%Y` adds a sign in front past year 9999).
#[verifier::external_body]
fn local_timestamp(pattern: &str) -> (stamp: String)
    requires
        pattern@ == timestamp_pattern(),
    ensures
        is_timestamp(stamp@),
{
    chrono::Local::now().format(pattern).to_string()
}

/// The file name offered when saving an annotated capture taken at `stamp`.
pub fn annotated_file_name(stamp: &str) -> (name: String)
    ensures
        name@ == save_file_name(stamp@),
{
    let mut name = "截图_".to_owned();
    name.append(stamp);
    name.append(".png");
    name
}

/// The file name offered when saving an annotated capture now: the capture
/// prefix, the local date and time as `YYYYmmdd_HHMMSS`, and the `.png`
/// extension.
pub fn default_save_file_name() -> (name: String)
    ensures
        exists|stamp: Seq<char>| is_timestamp(stamp) && name@ == save_file_name(stamp),
{
    let stamp = local_timestamp("%Y%m%d_%H%M%S");
    let name = annotated_file_name(stamp.as_str());
    assert(is_timestamp(stamp@) && name@ == save_file_name(stamp@));
    name
}

/// A save file name is the capture prefix, then the stamp unchanged, then the
/// `.png` extension: three characters of prefix, four of extension.
pub proof fn lemma_save_file_name_parts(stamp: Seq<char>)
    ensures
        save_file_name(stamp).len() == stamp.len() + 7,
        save_file_name(stamp).subrange(0, 3) == "截图_"@,
        save_file_name(stamp).subrange(3, 3 + stamp.len() as int) == stamp,
        save_file_name(stamp).subrange(3 + stamp.len() as int, stamp.len() as int + 7) == ".png"@,
{
    reveal_strlit("截图_");
    reveal_strlit(".png");
    let n: Seq<char> = save_file_name(stamp);
    assert(n.subrange(0, 3) =~= "截图_"@);
    assert(n.subrange(3, 3 + stamp.len() as int) =~= stamp);
    assert(n.subrange(3 + stamp.len() as int, stamp.len() as int + 7) =~= ".png"@);
}

} // verus!
