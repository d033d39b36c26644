//! File-path logic: supported-extension checks, resolution of the
//! markdown file to open, and resolution of image references against the
//! document's own path.
//!
//! Everything here is pure: whether the paths involved exist on disk is
//! handed in by the caller as plain booleans, so the rules themselves can
//! be verified.

use vstd::prelude::*;
use vstd::string::StringExecFns;
use crate::text::chars_eq_ignore_case;
use crate::text::fold_eq;
use crate::text::is_prefix_of;
use crate::text::rfind_char;
use crate::text::split_at;
use crate::text::split_char;
use crate::text::starts_with;
use crate::text::str_chars;
use crate::text::string_from_chars;
use crate::text::subrange_chars;

verus! {

/// The file-name part of a path: everything after the last `/`.
pub open spec fn file_name_of(path: Seq<char>) -> Seq<char> {
    match path.index_of_last('/') {
        Some(i) => path.subrange(i + 1, path.len() as int),
        None => path,
    }
}

/// The extension of a path: what follows the last `.` of its file name,
/// provided that dot is not the file name's first character.
pub open spec fn extension_of(path: Seq<char>) -> Option<Seq<char>> {
    let name = file_name_of(path);
    match name.index_of_last('.') {
        Some(i) => if i > 0 {
            Some(name.subrange(i + 1, name.len() as int))
        } else {
            None
        },
        None => None,
    }
}

/// Some entry of `supported` equals `ext` up to ASCII case.
pub open spec fn ext_listed(ext: Seq<char>, supported: Seq<Seq<char>>) -> bool {
    exists|i: int| 0 <= i < supported.len() && fold_eq(#[trigger] supported[i], ext)
}

/// The path carries an extension and that extension is listed.
pub open spec fn supported_path(path: Seq<char>, supported: Seq<Seq<char>>) -> bool {
    match extension_of(path) {
        Some(e) => ext_listed(e, supported),
        None => false,
    }
}

/// The views of a list of strings.
pub open spec fn views_of(items: Seq<String>) -> Seq<Seq<char>> {
    items.map_values(|s: String| s@)
}

/// The extension of the file name, as characters, if the path has one.
fn extension_chars(path: &[char]) -> (r: Option<Vec<char>>)
    ensures
        match r {
            Some(e) => extension_of(path@) == Some(e@),
            None => extension_of(path@) is None,
        },
{
    let n: usize = path.len();
    let name_start: usize = match rfind_char(path, '/') {
        Some(i) => {
            assert(i < n);
            i + 1
        },
        None => 0,
    };
    let name = subrange_chars(path, name_start, n);
    proof {
        assert(name@ =~= file_name_of(path@));
    }
    match rfind_char(name.as_slice(), '.') {
        Some(i) => if i > 0 {
            Some(subrange_chars(name.as_slice(), i + 1, name.len()))
        } else {
            None
        },
        None => None,
    }
}

/// Check whether a file path carries one of the supported extensions,
/// compared case-insensitively over ASCII.
pub fn is_supported_extension(file_path: &str, supported_extensions: &[String]) -> (r: bool)
    ensures
        r == supported_path(file_path@, views_of(supported_extensions@)),
{
    let path = str_chars(file_path);
    match extension_chars(path.as_slice()) {
        Some(ext) => {
            let mut i: usize = 0;
            while i < supported_extensions.len()
                invariant
                    i <= supported_extensions.len(),
                    extension_of(file_path@) == Some(ext@),
                    forall|k: int|
                        0 <= k < i ==> !fold_eq(
                            #[trigger] views_of(supported_extensions@)[k],
                            ext@,
                        ),
                decreases supported_extensions.len() - i,
            {
                let cand = str_chars(supported_extensions[i].as_str());
                if chars_eq_ignore_case(cand.as_slice(), ext.as_slice()) {
                    proof {
                        assert(views_of(supported_extensions@)[i as int] == supported_extensions@[
                            i as int
                        ]@);
                        assert(ext_listed(ext@, views_of(supported_extensions@)));
                    }
                    return true;
                }
                i = i + 1;
            }
            false
        },
        None => false,
    }
}

/// Why resolving the markdown file to open failed.
#[derive(Debug)]
pub enum ResolveError {
    /// The named file does not exist.
    FileNotFound { path: String },
    /// The named file exists but its extension is not supported;
    /// `supported_list` holds the supported extensions joined with `", "`.
    UnsupportedFormat { path: String, supported_list: String },
    /// No file was named and neither default file exists.
    NoDefaultFile,
}

/// The diagnostic text for each resolution failure.
pub open spec fn resolve_error_message(e: ResolveError) -> Seq<char> {
    match e {
        ResolveError::FileNotFound { path } => "File not found: "@ + path@,
        ResolveError::UnsupportedFormat { path, supported_list } => "Unsupported file format. File '"@
            + path@ + "' does not have a supported extension.\nSupported formats: "@
            + supported_list@,
        ResolveError::NoDefaultFile => "Default files README.md and TODO.md not found. Please specify a markdown file."@,
    }
}

impl ResolveError {
    /// Render the failure as the diagnostic text shown to the user.
    pub fn message(&self) -> (m: String)
        ensures
            m@ == resolve_error_message(*self),
    {
        match self {
            ResolveError::FileNotFound { path } => String::from_str("File not found: ").concat(
                path.as_str(),
            ),
            ResolveError::UnsupportedFormat { path, supported_list } => String::from_str(
                "Unsupported file format. File '",
            ).concat(path.as_str()).concat(
                "' does not have a supported extension.\nSupported formats: ",
            ).concat(supported_list.as_str()),
            ResolveError::NoDefaultFile => String::from_str(
                "Default files README.md and TODO.md not found. Please specify a markdown file.",
            ),
        }
    }
}

/// The items joined with the separator.
pub open spec fn join_sep(items: Seq<Seq<char>>, sep: Seq<char>) -> Seq<char>
    decreases items.len(),
{
    if items.len() == 0 {
        Seq::empty()
    } else if items.len() == 1 {
        items[0]
    } else {
        join_sep(items.drop_last(), sep) + sep + items.last()
    }
}

/// Join a list of strings with `", "`.
pub fn join_comma(items: &[String]) -> (r: String)
    ensures
        r@ == join_sep(views_of(items@), ", "@),
{
    let mut acc: Vec<char> = Vec::new();
    let sep = str_chars(", ");
    let mut i: usize = 0;
    while i < items.len()
        invariant
            i <= items.len(),
            sep@ == ", "@,
            acc@ == join_sep(views_of(items@.take(i as int)), ", "@),
        decreases items.len() - i,
    {
        if i > 0 {
            crate::text::extend_chars(&mut acc, sep.as_slice());
        }
        let item = str_chars(items[i].as_str());
        crate::text::extend_chars(&mut acc, item.as_slice());
        proof {
            let pre = views_of(items@.take(i as int));
            let cur = views_of(items@.take(i + 1));
            assert(cur.drop_last() =~= pre);
            assert(cur.last() == items@[i as int]@);
            if i == 0 {
                assert(acc@ =~= join_sep(cur, ", "@));
            } else {
                assert(acc@ =~= join_sep(cur, ", "@));
            }
        }
        i = i + 1;
    }
    proof {
        assert(items@.take(items@.len() as int) =~= items@);
    }
    string_from_chars(acc.as_slice())
}

/// Resolve which markdown file to open.
///
/// When a path is given it must exist (`target_exists`) and carry a
/// supported extension, and is then returned as-is. When none is given
/// the defaults `README.md` and then `TODO.md` are tried, by the
/// existence bits handed in.
pub fn resolve_markdown_file_path(
    file_path: Option<&str>,
    supported_extensions: &[String],
    target_exists: bool,
    readme_exists: bool,
    todo_exists: bool,
) -> (r: Result<String, ResolveError>)
    ensures
        match file_path {
            Some(p) => {
                &&& !target_exists ==> (r matches Err(ResolveError::FileNotFound { path })
                    && path@ == p@)
                &&& (target_exists && !supported_path(p@, views_of(supported_extensions@))) ==> (
                r matches Err(ResolveError::UnsupportedFormat { path, supported_list })
                    && path@ == p@ && supported_list@ == join_sep(
                    views_of(supported_extensions@),
                    ", "@,
                ))
                &&& (target_exists && supported_path(p@, views_of(supported_extensions@))) ==> (
                r matches Ok(res) && res@ == p@)
            },
            None => {
                &&& readme_exists ==> (r matches Ok(res) && res@ == "README.md"@)
                &&& (!readme_exists && todo_exists) ==> (r matches Ok(res) && res@ == "TODO.md"@)
                &&& (!readme_exists && !todo_exists) ==> r matches Err(
                    ResolveError::NoDefaultFile,
                )
            },
        },
{
    match file_path {
        Some(path) => {
            if !target_exists {
                Err(ResolveError::FileNotFound { path: path.to_owned() })
            } else if !is_supported_extension(path, supported_extensions) {
                let supported_list = join_comma(supported_extensions);
                Err(
                    ResolveError::UnsupportedFormat {
                        path: path.to_owned(),
                        supported_list,
                    },
                )
            } else {
                Ok(path.to_owned())
            }
        },
        None => {
            if readme_exists {
                Ok(String::from_str("README.md"))
            } else if todo_exists {
                Ok(String::from_str("TODO.md"))
            } else {
                Err(ResolveError::NoDefaultFile)
            }
        },
    }
}

/// An image reference is a web URL.
pub open spec fn is_url(s: Seq<char>) -> bool {
    is_prefix_of("http://"@, s) || is_prefix_of("https://"@, s)
}

/// A path component standing for the current directory.
pub open spec fn is_cur_comp(c: Seq<char>) -> bool {
    c.len() == 1 && c[0] == '.'
}

/// A path component standing for the parent directory.
pub open spec fn is_parent_comp(c: Seq<char>) -> bool {
    c.len() == 2 && c[0] == '.' && c[1] == '.'
}

/// Normalized component list: empty components (but a leading one, which
/// marks an absolute path) and `.` disappear, and `..` pops the previous
/// component when there is one.
pub open spec fn norm_comps(comps: Seq<Seq<char>>) -> Seq<Seq<char>>
    decreases comps.len(),
{
    if comps.len() == 0 {
        Seq::empty()
    } else {
        let prev = norm_comps(comps.drop_last());
        let c = comps.last();
        if c.len() == 0 {
            if comps.len() == 1 {
                seq![c]
            } else {
                prev
            }
        } else if is_cur_comp(c) {
            prev
        } else if is_parent_comp(c) {
            if prev.len() > 0 {
                prev.drop_last()
            } else {
                prev
            }
        } else {
            prev.push(c)
        }
    }
}

/// A path rebuilt from its normalized components. A lone root marker
/// renders as `/`.
pub open spec fn normalize_spec(s: Seq<char>) -> Seq<char> {
    let comps = norm_comps(split_at(s, '/'));
    if comps.len() == 1 && comps[0].len() == 0 {
        seq!['/']
    } else {
        join_sep(comps, seq!['/'])
    }
}

/// The resolved form of an image reference: URLs and absolute paths pass
/// through unchanged; relative references resolve against the directory
/// of the markdown file and are normalized.
pub open spec fn resolve_image_spec(img: Seq<char>, doc: Seq<char>) -> Seq<char> {
    if is_url(img) {
        img
    } else if img.len() > 0 && img[0] == '/' {
        img
    } else {
        match doc.index_of_last('/') {
            Some(i) => {
                let parent = if i == 0 {
                    seq!['/']
                } else {
                    doc.take(i)
                };
                normalize_spec(parent + seq!['/'] + img)
            },
            None => normalize_spec(img),
        }
    }
}

/// Normalize the component list of a path.
fn normalize_chars(s: &[char]) -> (r: Vec<char>)
    ensures
        r@ == normalize_spec(s@),
{
    let comps = split_char(s, '/');
    let mut acc: Vec<Vec<char>> = Vec::new();
    let mut k: usize = 0;
    while k < comps.len()
        invariant
            k <= comps.len(),
            comps@.map_values(|p: Vec<char>| p@) == split_at(s@, '/'),
            acc@.map_values(|p: Vec<char>| p@) == norm_comps(
                split_at(s@, '/').take(k as int),
            ),
        decreases comps.len() - k,
    {
        let ghost spec_comps = comps@.map_values(|p: Vec<char>| p@);
        let ghost acc0 = acc@.map_values(|p: Vec<char>| p@);
        let comp = subrange_chars(comps[k].as_slice(), 0, comps[k].len());
        proof {
            assert(comp@ =~= spec_comps[k as int]);
            assert(spec_comps.take(k + 1).drop_last() =~= spec_comps.take(k as int));
            assert(spec_comps.take(k + 1).last() == spec_comps[k as int]);
        }
        if comp.len() == 0 {
            if k == 0 {
                acc.push(comp);
                proof {
                    assert(acc@.map_values(|p: Vec<char>| p@) =~= acc0.push(comp@));
                    assert(acc0.push(comp@) =~= norm_comps(spec_comps.take(k + 1)));
                }
            } else {
                proof {
                    assert(acc0 =~= norm_comps(spec_comps.take(k + 1)));
                }
            }
        } else if comp.len() == 1 && comp[0] == '.' {
            proof {
                assert(is_cur_comp(comp@));
                assert(acc0 =~= norm_comps(spec_comps.take(k + 1)));
            }
        } else if comp.len() == 2 && comp[0] == '.' && comp[1] == '.' {
            proof {
                assert(is_parent_comp(comp@));
            }
            if acc.len() > 0 {
                acc.pop();
                proof {
                    assert(acc@.map_values(|p: Vec<char>| p@) =~= acc0.drop_last());
                    assert(acc0.drop_last() =~= norm_comps(spec_comps.take(k + 1)));
                }
            } else {
                proof {
                    assert(acc0 =~= norm_comps(spec_comps.take(k + 1)));
                }
            }
        } else {
            acc.push(comp);
            proof {
                assert(acc@.map_values(|p: Vec<char>| p@) =~= acc0.push(comp@));
                assert(acc0.push(comp@) =~= norm_comps(spec_comps.take(k + 1)));
            }
        }
        k = k + 1;
    }
    proof {
        assert(split_at(s@, '/').take(split_at(s@, '/').len() as int) =~= split_at(s@, '/'));
    }
    if acc.len() == 1 && acc[0].len() == 0 {
        let mut r: Vec<char> = Vec::new();
        r.push('/');
        proof {
            assert(r@ =~= normalize_spec(s@));
        }
        return r;
    }
    let mut r: Vec<char> = Vec::new();
    let mut k: usize = 0;
    while k < acc.len()
        invariant
            k <= acc.len(),
            acc@.map_values(|p: Vec<char>| p@) == norm_comps(split_at(s@, '/')),
            r@ == join_sep(acc@.map_values(|p: Vec<char>| p@).take(k as int), seq!['/']),
        decreases acc.len() - k,
    {
        if k > 0 {
            r.push('/');
        }
        crate::text::extend_chars(&mut r, acc[k].as_slice());
        proof {
            let m = acc@.map_values(|p: Vec<char>| p@);
            assert(m.take(k + 1).drop_last() =~= m.take(k as int));
            assert(m.take(k + 1).last() == m[k as int]);
            if k == 0 {
                assert(r@ =~= join_sep(m.take(k + 1), seq!['/']));
            } else {
                assert(r@ =~= join_sep(m.take(k + 1), seq!['/']));
            }
        }
        k = k + 1;
    }
    proof {
        let m = acc@.map_values(|p: Vec<char>| p@);
        assert(m.take(m.len() as int) =~= m);
    }
    r
}

/// Resolve an image reference, given as characters, against the
/// markdown file's path.
pub fn resolve_image_chars(img: &[char], doc: &[char]) -> (r: Vec<char>)
    ensures
        r@ == resolve_image_spec(img@, doc@),
{
    let http = str_chars("http://");
    let https = str_chars("https://");
    if starts_with(img, http.as_slice()) || starts_with(img, https.as_slice()) {
        return subrange_chars(img, 0, img.len());
    }
    if img.len() > 0 && img[0] == '/' {
        return subrange_chars(img, 0, img.len());
    }
    match rfind_char(doc, '/') {
        Some(i) => {
            let mut joined: Vec<char> = if i == 0 {
                let mut p: Vec<char> = Vec::new();
                p.push('/');
                proof {
                    assert(p@ =~= seq!['/']);
                }
                p
            } else {
                subrange_chars(doc, 0, i)
            };
            joined.push('/');
            crate::text::extend_chars(&mut joined, img);
            proof {
                let parent = if i == 0 {
                    seq!['/']
                } else {
                    doc@.take(i as int)
                };
                assert(joined@ =~= parent + seq!['/'] + img@);
            }
            normalize_chars(joined.as_slice())
        },
        None => normalize_chars(img),
    }
}

/// Resolve an image reference against the markdown file's path.
///
/// URLs and absolute paths pass through unchanged; a relative reference
/// resolves against the markdown file's directory, with `.` and `..`
/// components folded away.
pub fn resolve_image_path(image_path: &str, markdown_file_path: &str) -> (r: String)
    ensures
        r@ == resolve_image_spec(image_path@, markdown_file_path@),
{
    let img = str_chars(image_path);
    let doc = str_chars(markdown_file_path);
    let resolved = resolve_image_chars(img.as_slice(), doc.as_slice());
    string_from_chars(resolved.as_slice())
}

} // verus!
