//! Which files of a project workspace are indexed.
use vstd::prelude::*;

use crate::text::{ascii_lower_str, ascii_lowercase, chars_eq, chars_of};

verus! {

/// The indexed file extensions (lowercase).
pub open spec fn whitelist() -> Seq<Seq<char>> {
    seq![
        "md"@, "txt"@, "rs"@, "ts"@, "tsx"@, "js"@, "jsx"@, "svelte"@, "json"@, "yaml"@, "yml"@,
        "toml"@, "py"@, "go"@, "java"@, "c"@, "cpp"@, "h"@, "hpp"@, "sql"@, "css"@, "html"@,
        "vue"@, "sh"@, "bash"@,
    ]
}

/// `Path::extension`: the part of the file name after its last `.` (none for
/// names without a dot, or whose only dot leads).
pub uninterp spec fn path_extension(path: Seq<char>) -> Option<Seq<char>>;

/// The extension of `path`.
///
/// Trusted: calls `std::path::Path::extension`; how it finds the file name
/// and its extension is only named.
#[verifier::external_body]
pub(crate) fn extension_of(path: &str) -> (r: Option<String>)
    ensures
        match r {
            Some(e) => path_extension(path@) == Some(e@),
            None => path_extension(path@) is None,
        },
{
    std::path::Path::new(path).extension().and_then(|e| e.to_str()).map(|e| e.to_string())
}

/// An extension (as found) is on the whitelist once ASCII-lowercased.
pub open spec fn extension_allowed(ext: Seq<char>) -> bool {
    whitelist().contains(ascii_lower_str(ext))
}

/// Whether a file with this extension (if any) is indexed.
pub fn extension_whitelisted(ext: Option<&str>) -> (r: bool)
    ensures
        r == match ext {
            Some(e) => extension_allowed(e@),
            None => false,
        },
{
    match ext {
        None => false,
        Some(e) => {
            let lower = ascii_lowercase(e);
            let names: [&str; 25] = [
                "md", "txt", "rs", "ts", "tsx", "js", "jsx", "svelte", "json", "yaml", "yml", "toml",
                "py", "go", "java", "c", "cpp", "h", "hpp", "sql", "css", "html", "vue", "sh",
                "bash",
            ];
            let ghost wl = whitelist();
            assert(wl.len() == 25);
            let mut i: usize = 0;
            while i < 25
                invariant
                    i <= 25,
                    ext == Some(e),
                    wl == whitelist(),
                    forall|k: int| 0 <= k < 25 ==> #[trigger] names@[k]@ == wl[k],
                    forall|k: int| 0 <= k < i ==> wl[k] != lower@,
                    lower@ == ascii_lower_str(e@),
                decreases 25 - i,
            {
                let cand = chars_of(names[i]);
                if chars_eq(&cand, &lower) {
                    assert(wl[i as int] == lower@);
                    assert(wl.contains(lower@));
                    return true;
                }
                i += 1;
            }
            assert(!wl.contains(lower@));
            false
        },
    }
}

/// Whether the file at relative path `rel` is indexed: its extension,
/// ASCII-lowercased, is on the whitelist.
pub fn is_whitelisted(rel: &str) -> (r: bool)
    ensures
        r == match path_extension(rel@) {
            Some(e) => extension_allowed(e),
            None => false,
        },
{
    match extension_of(rel) {
        Some(e) => extension_whitelisted(Some(e.as_str())),
        None => extension_whitelisted(None),
    }
}

/// Whether a path counts as indexed (its extension is on the list).
pub open spec fn indexable(rel: Seq<char>) -> bool {
    match path_extension(rel) {
        Some(e) => extension_allowed(e),
        None => false,
    }
}

/// What to do with a changed path of the workspace.
#[derive(Debug, Clone, Copy, PartialEq, Eq, Structural)]
pub enum IndexAction {
    /// Indexed already with the same fingerprint.
    Unchanged,
    /// Indexed with another fingerprint: drop the old document, ingest again.
    Reingest,
    /// Not indexed yet: ingest.
    Ingest,
    /// The file is gone: drop its document.
    Remove,
    /// Not a file to index.
    Ignore,
}

/// The action for a changed path: an indexable file is ingested unless its
/// stored fingerprint (`stored`: the indexed document's fingerprint, when
/// there is a document) matches; a vanished path is removed.
pub open spec fn index_action_spec(rel: Seq<char>, is_file: bool, exists: bool, stored: Option<Option<Seq<char>>>, fp: Seq<char>) -> IndexAction {
    if is_file && indexable(rel) {
        match stored {
            None => IndexAction::Ingest,
            Some(f) => if f == Some(fp) {
                IndexAction::Unchanged
            } else {
                IndexAction::Reingest
            },
        }
    } else if !exists {
        IndexAction::Remove
    } else {
        IndexAction::Ignore
    }
}

/// Decides what to do with a changed path.
pub fn index_action(rel: &str, is_file: bool, exists: bool, stored: Option<Option<String>>, fp: &str) -> (r: IndexAction)
    ensures
        r == index_action_spec(
            rel@,
            is_file,
            exists,
            match stored {
                None => None,
                Some(f) => Some(
                    match f {
                        Some(x) => Some(x@),
                        None => None,
                    },
                ),
            },
            fp@,
        ),
{
    if is_file && is_whitelisted(rel) {
        match stored {
            None => IndexAction::Ingest,
            Some(f) => match f {
                Some(x) => if crate::text::str_eq(x.as_str(), fp) {
                    IndexAction::Unchanged
                } else {
                    IndexAction::Reingest
                },
                None => IndexAction::Reingest,
            },
        }
    } else if !exists {
        IndexAction::Remove
    } else {
        IndexAction::Ignore
    }
}

/// A signed decimal number.
pub open spec fn signed_decimal(n: int) -> Seq<char> {
    if n < 0 {
        "-"@ + crate::text::decimal((-n) as nat)
    } else {
        crate::text::decimal(n as nat)
    }
}

/// The fingerprint of a file: its modification time in nanoseconds and its
/// length, as `<nanos>:<len>`.
pub fn fingerprint_text(modified_nanos: i64, len: u64) -> (r: String)
    ensures
        r@ == signed_decimal(modified_nanos as int) + ":"@ + crate::text::decimal(len as nat),
{
    let mut v: Vec<char> = Vec::new();
    if modified_nanos < 0 {
        v.push('-');
        let mag: u64 = if modified_nanos == i64::MIN {
            9223372036854775808u64
        } else {
            (-modified_nanos) as u64
        };
        crate::text::extend_chars(&mut v, &crate::text::decimal_chars(mag));
        assert(v@ =~= "-"@ + crate::text::decimal((-(modified_nanos as int)) as nat)) by {
            reveal_strlit("-");
        }
    } else {
        crate::text::extend_chars(&mut v, &crate::text::decimal_chars(modified_nanos as u64));
    }
    crate::text::extend_chars(&mut v, &chars_of(":"));
    crate::text::extend_chars(&mut v, &crate::text::decimal_chars(len));
    crate::text::string_from(&v)
}

} // verus!
