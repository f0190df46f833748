//! Swift package manifests: external package dependencies and indentation of blocks.
use vstd::prelude::*;

use crate::generation::config::{ExternalPackage, ExternalPackageV, PackageLocation, PackageLocationV};
use crate::util::text::{concat3, final_newline, joined, terminated_lines};

verus! {

/// What `indent::indent_all_with` returns for a prefix and an input.
pub uninterp spec fn indented_all(prefix: Seq<char>, input: Seq<char>) -> Seq<char>;

/// The lines of `input`, each non-empty one after `prefix`, joined by newlines, with the
/// final newline of `input` if it has one.
pub open spec fn prefix_nonempty_lines(prefix: Seq<char>, input: Seq<char>) -> Seq<char> {
    let ls = terminated_lines(input).map_values(
        |l: Seq<char>|
            if l.len() == 0 {
                l
            } else {
                prefix + l
            },
    );
    joined(ls, seq!['\n']) + final_newline(input)
}

/// Calls `indent::indent_all_with`, which puts `prefix` before every non-empty line of
/// `input` (the lines that `str::lines` gives). Claimed: the result depends on the two
/// texts alone, and is named `indented_all(prefix@, input@)`; for an input without a
/// carriage return it is `prefix_nonempty_lines(prefix@, input@)`. How a carriage return
/// before a newline is dropped is left unsaid.
#[verifier::external_body]
pub(crate) fn indent_all_with(prefix: &str, input: &str) -> (r: String)
    ensures
        r@ == indented_all(prefix@, input@),
        !input@.contains('\r') ==> r@ == prefix_nonempty_lines(prefix@, input@),
{
    indent::indent_all_with(prefix, input)
}

/// `n` spaces.
pub open spec fn spaces(n: nat) -> Seq<char> {
    Seq::new(n, |i: int| ' ')
}

/// `n` spaces.
pub fn spaces_text(n: usize) -> (r: String)
    ensures
        r@ == spaces(n as nat),
{
    let mut r = String::new();
    let mut i: usize = 0;
    proof {
        reveal_strlit(" ");
    }
    while i < n
        invariant
            i <= n,
            r@ == spaces(i as nat),
            " "@ == seq![' '],
        decreases n - i,
    {
        r.append(" ");
        assert(r@ =~= spaces((i + 1) as nat));
        i = i + 1;
    }
    r
}

/// The Swift Package Manager dependency on an external package: a local path, or a URL
/// from a version (empty if none).
pub open spec fn swift_package_text(p: ExternalPackageV) -> Seq<char> {
    match p.location {
        PackageLocationV::Path(location) => ".package(\n    path: \""@ + location + "\"\n)"@,
        PackageLocationV::Url(location) => {
            let version = match p.version {
                Some(v) => v,
                None => Seq::empty(),
            };
            ".package(\n    url: \""@ + location + "\",\n    from: \""@ + version + "\"\n)"@
        },
    }
}

impl ExternalPackage {
    /// The dependency on this package in a Swift package manifest, indented by `level`
    /// levels of four spaces.
    pub fn to_swift(self, level: usize) -> (r: String)
        requires
            4 * level <= usize::MAX,
        ensures
            r@ == indented_all(spaces((4 * level) as nat), swift_package_text(self@)),
            !swift_package_text(self@).contains('\r') ==> r@ == prefix_nonempty_lines(
                spaces((4 * level) as nat),
                swift_package_text(self@),
            ),
    {
        let indent = spaces_text(4 * level);
        let base = match &self.location {
            PackageLocation::Path(location) => concat3(".package(\n    path: \"", location.as_str(), "\"\n)"),
            PackageLocation::Url(location) => {
                let version = match &self.version {
                    Some(v) => v.clone(),
                    None => String::new(),
                };
                let mut r = concat3(".package(\n    url: \"", location.as_str(), "\",\n    from: \"");
                r.append(version.as_str());
                r.append("\"\n)");
                r
            },
        };
        indent_all_with(indent.as_str(), base.as_str())
    }
}

} // verus!
