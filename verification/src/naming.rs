use vstd::prelude::*;
use vstd::string::*;

verus! {

/// The characters of `name` before its first `'.'` (all of them if there is
/// no dot).
pub open spec fn prefix_before_dot(name: Seq<char>) -> Seq<char>
    decreases name.len(),
{
    if name.len() == 0 {
        name
    } else if name[0] == '.' {
        Seq::empty()
    } else {
        seq![name[0]] + prefix_before_dot(name.drop_first())
    }
}

/// The file stem as the output naming takes it: everything before the first
/// `'.'` when the name holds a dot and no newline — exactly the names the
/// stripping pattern matches — and the whole name unchanged otherwise.
pub open spec fn stem_of(name: Seq<char>) -> Seq<char> {
    if name.contains('.') && !name.contains('\n') {
        prefix_before_dot(name)
    } else {
        name
    }
}

/// Relies on regex::Regex::replace_all with the anchored lazy pattern
/// `^(.*?)\..*$`: `.` matches any character but a newline and the anchors
/// bind the match to the whole name, so a name with a dot and no newline is
/// replaced by its first capture — everything before the first dot — and any
/// other name has no match and comes back unchanged.
#[verifier::external_body]
fn strip_extension(name: &str) -> (r: String)
    ensures
        r@ == stem_of(name@),
{
    let re = regex::Regex::new(r"^(.*?)\..*$").unwrap();
    re.replace_all(name, "$1").into_owned()
}

/// Output file name for one processed size: the input file's stem, the fixed
/// tag, the per-size label, and the JPEG extension. Deterministic, and never
/// the input name itself, so the source file is not overwritten.
pub fn derive_output_name(file_name: &str, label: &str) -> (r: String)
    ensures
        r@ == stem_of(file_name@) + "_rust_"@ + label@ + ".jpg"@,
{
    let mut out: String = strip_extension(file_name);
    out.append("_rust_");
    out.append(label);
    out.append(".jpg");
    out
}

} // verus!
