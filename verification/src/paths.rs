//! Default output locations derived from input paths, and what the
//! platform's path rules give for plain `/`-separated paths.
use vstd::prelude::*;
use crate::text::{chars_of, push_str, string_of};

verus! {

/// `text` ends with `suffix`.
pub open spec fn has_suffix(text: Seq<char>, suffix: Seq<char>) -> bool {
    suffix.len() <= text.len() && text.skip(text.len() - suffix.len()) == suffix
}

/// The index of the last `c` in `s`, or -1 where there is none.
pub open spec fn last_index_of(s: Seq<char>, c: char) -> int
    decreases s.len(),
{
    if s.len() == 0 {
        -1
    } else if s.last() == c {
        s.len() - 1
    } else {
        last_index_of(s.drop_last(), c)
    }
}

proof fn lemma_last_index_of(s: Seq<char>, c: char)
    ensures
        -1 <= last_index_of(s, c) < s.len(),
        last_index_of(s, c) >= 0 ==> s[last_index_of(s, c)] == c,
        forall|j: int| last_index_of(s, c) < j < s.len() ==> s[j] != c,
    decreases s.len(),
{
    if s.len() > 0 && s.last() != c {
        lemma_last_index_of(s.drop_last(), c);
        assert forall|j: int| last_index_of(s, c) < j < s.len() implies s[j] != c by {
            if j < s.len() - 1 {
                assert(s[j] == s.drop_last()[j]);
            }
        }
    }
}

/// Text holding no separator (`/`, `\\`) and no drive mark (`:`).
pub open spec fn no_separator(s: Seq<char>) -> bool {
    forall|i: int| 0 <= i < s.len() ==> #[trigger] s[i] != '/' && s[i] != '\\' && s[i] != ':'
}

/// One ordinary path component, read the same way on every platform: not
/// empty, not `.` or `..`, holding no separator or drive mark.
pub open spec fn plain_component(c: Seq<char>) -> bool {
    &&& c.len() > 0
    &&& no_separator(c)
    &&& c != seq!['.']
    &&& c != seq!['.', '.']
}

/// A `.` or `..` component starts at index `i` of `p`.
pub open spec fn dot_component_at(p: Seq<char>, i: int) -> bool {
    &&& p[i] == '.'
    &&& (i + 1 == p.len() || p[i + 1] == '/' || (p[i + 1] == '.' && (i + 2 == p.len() || p[i + 2]
        == '/')))
}

/// A plain path: ordinary components joined by single `/`, perhaps after
/// a leading `/`, with no trailing `/`, no `\\` and no `:`. Every platform
/// splits such a path the same way.
pub open spec fn simple_path(p: Seq<char>) -> bool {
    &&& p.len() > 0
    &&& p.last() != '/'
    &&& forall|i: int| 0 <= i < p.len() ==> #[trigger] p[i] != '\\' && p[i] != ':'
    &&& forall|i: int| 0 <= i < p.len() - 1 && #[trigger] p[i] == '/' ==> p[i + 1] != '/'
    &&& forall|i: int|
        0 <= i < p.len() && (i == 0 || p[i - 1] == '/') ==> !#[trigger] dot_component_at(p, i)
}

/// The last component of a plain path.
pub open spec fn name_part(p: Seq<char>) -> Seq<char> {
    p.skip(last_index_of(p, '/') + 1)
}

/// What is left of a plain path without its last component: empty for a
/// lone name, `/` for a name at the root.
pub open spec fn parent_part(p: Seq<char>) -> Seq<char> {
    let s = last_index_of(p, '/');
    if s < 0 {
        Seq::empty()
    } else if s == 0 {
        seq!['/']
    } else {
        p.take(s)
    }
}

/// The stem of a file name: before its last dot, unless that dot is the
/// first character or there is none.
pub open spec fn file_stem_of_name(n: Seq<char>) -> Seq<char> {
    let d = last_index_of(n, '.');
    if d <= 0 {
        n
    } else {
        n.take(d)
    }
}

/// The extension of a file name: after its last dot, unless that dot is
/// the first character or there is none.
pub open spec fn extension_of_name(n: Seq<char>) -> Option<Seq<char>> {
    let d = last_index_of(n, '.');
    if d <= 0 {
        None
    } else {
        Some(n.skip(d + 1))
    }
}

/// A path separator on some platform.
pub open spec fn is_separator(c: char) -> bool {
    c == '/' || c == '\\'
}

/// A base that `join` extends the same way on every platform: no drive
/// mark `:`, not starting with two separators (no prefix to read), not
/// ending in `\\`.
pub open spec fn join_base(b: Seq<char>) -> bool {
    &&& forall|i: int| 0 <= i < b.len() ==> #[trigger] b[i] != ':'
    &&& !(b.len() >= 2 && is_separator(b[0]) && is_separator(b[1]))
    &&& !(b.len() > 0 && b.last() == '\\')
}

/// `name` appended to `base` with the separator `sep`, which is left out
/// after an empty base or a base ending in `/`.
pub open spec fn joined(base: Seq<char>, name: Seq<char>, sep: char) -> Seq<char> {
    if base.len() == 0 {
        name
    } else if base.last() == '/' {
        base + name
    } else {
        base + seq![sep] + name
    }
}

/// `name` joined to `base` with the platform's separator, `/` or `\\`.
pub open spec fn joined_either(r: Seq<char>, base: Seq<char>, name: Seq<char>) -> bool {
    r == joined(base, name, '/') || r == joined(base, name, '\\')
}

proof fn lemma_simple_parts(p: Seq<char>)
    requires
        simple_path(p),
    ensures
        plain_component(name_part(p)),
        join_base(parent_part(p)),
        no_separator(file_stem_of_name(name_part(p))),
        file_stem_of_name(name_part(p)).len() > 0,
{
    lemma_last_index_of(p, '/');
    let s = last_index_of(p, '/');
    let n = name_part(p);
    assert(s < p.len() - 1);
    assert forall|i: int| 0 <= i < n.len() implies #[trigger] n[i] != '/' && n[i] != '\\' && n[i]
        != ':' by {
        assert(n[i] == p[s + 1 + i]);
    }
    assert(n.len() == p.len() - (s + 1));
    if n == seq!['.'] {
        assert(n[0] == p[s + 1]);
        assert(dot_component_at(p, s + 1));
    }
    if n == seq!['.', '.'] {
        assert(n[0] == p[s + 1]);
        assert(n[1] == p[s + 2]);
        assert(dot_component_at(p, s + 1));
    }
    if s > 1 {
        assert(!(p[0] == '/' && p[1] == '/'));
        assert(p.take(s).last() == p[s - 1]);
    }
    lemma_last_index_of(n, '.');
    let d = last_index_of(n, '.');
    let st = file_stem_of_name(n);
    assert forall|i: int| 0 <= i < st.len() implies #[trigger] st[i] != '/' && st[i] != '\\'
        && st[i] != ':' by {
        assert(st[i] == n[i]);
    }
}

/// A stem with no separator, followed by a suffix of ordinary characters,
/// is one ordinary component.
proof fn lemma_plain_name(stem: Seq<char>, suffix: Seq<char>)
    requires
        stem.len() > 0,
        no_separator(stem),
        no_separator(suffix),
        suffix.len() >= 2,
        suffix.last() != '.',
    ensures
        plain_component(stem + suffix),
{
    let n = stem + suffix;
    assert forall|i: int| 0 <= i < n.len() implies #[trigger] n[i] != '/' && n[i] != '\\' && n[i]
        != ':' by {
        if i < stem.len() {
            assert(n[i] == stem[i]);
        } else {
            assert(n[i] == suffix[i - stem.len()]);
        }
    }
    assert(n.len() >= 3);
    assert(n.last() == suffix.last());
}

/// A join base extended by an ordinary component that does not end in a
/// separator is a join base again.
pub proof fn lemma_joined_base(base: Seq<char>, name: Seq<char>, sep: char)
    requires
        join_base(base),
        plain_component(name),
        is_separator(sep),
    ensures
        join_base(joined(base, name, sep)),
{
    let r = joined(base, name, sep);
    if base.len() == 0 {
        assert(r == name);
    } else if base.last() == '/' {
        assert(r == base + name);
        assert forall|i: int| 0 <= i < r.len() implies #[trigger] r[i] != ':' by {
            if i < base.len() {
                assert(r[i] == base[i]);
            } else {
                assert(r[i] == name[i - base.len()]);
            }
        }
        if base.len() == 1 {
            assert(r[1] == name[0]);
        } else {
            assert(r[0] == base[0] && r[1] == base[1]);
        }
        assert(r.last() == name.last());
    } else {
        assert(r == base + seq![sep] + name);
        assert forall|i: int| 0 <= i < r.len() implies #[trigger] r[i] != ':' by {
            if i < base.len() {
                assert(r[i] == base[i]);
            } else if i == base.len() {
            } else {
                assert(r[i] == name[i - base.len() - 1]);
            }
        }
        if base.len() == 1 {
            assert(r[0] == base[0] && r[1] == sep);
            assert(base.last() == base[0]);
        } else {
            assert(r[0] == base[0] && r[1] == base[1]);
        }
        assert(r.last() == name.last());
    }
}

/// `std::path::Path::file_stem` of `path`, as text. For a plain path it is
/// the stem of the last component (`file_stem_of_name`), as the
/// documentation gives it; for other paths the platform's rules decide,
/// and nothing is stated.
#[verifier::external_body]
pub(crate) fn path_file_stem(path: &str) -> (r: Option<String>)
    ensures
        simple_path(path@) ==> opt_text(r) == Some(file_stem_of_name(name_part(path@))),
{
    std::path::Path::new(path).file_stem().and_then(|s| s.to_str()).map(|s| s.to_string())
}

/// `std::path::Path::parent` of `path`, as text. For a plain path it is the
/// path without its last component (`parent_part`); for other paths the
/// platform's rules decide, and nothing is stated.
#[verifier::external_body]
pub(crate) fn path_parent(path: &str) -> (r: Option<String>)
    ensures
        simple_path(path@) ==> opt_text(r) == Some(parent_part(path@)),
{
    std::path::Path::new(path).parent().map(|p| p.to_string_lossy().to_string())
}

/// `std::path::Path::join` of one ordinary component `name`: the result
/// ends with `name`; where `base` holds no prefix or root that the platform
/// would read, it is `base`, the platform's separator (`/` or `\\`, left
/// out after an empty base or a trailing `/`) and `name`. Which separator
/// the platform uses is not stated, nor what other names give.
#[verifier::external_body]
pub(crate) fn path_join(base: &str, name: &str) -> (r: String)
    ensures
        plain_component(name@) ==> has_suffix(r@, name@),
        plain_component(name@) && join_base(base@) ==> joined_either(r@, base@, name@),
{
    std::path::Path::new(base).join(name).to_string_lossy().to_string()
}

/// The path of settings file `file_name` in the application's settings
/// folder `config_dir` (which the caller has found and created): the
/// folder joined with the file name.
pub fn get_config_file_path(config_dir: &str, file_name: &str) -> (r: String)
    ensures
        plain_component(file_name@) ==> has_suffix(r@, file_name@),
        plain_component(file_name@) && join_base(config_dir@) ==> joined_either(
            r@,
            config_dir@,
            file_name@,
        ),
{
    path_join(config_dir, file_name)
}

/// A non-empty stem, or `fallback`.
pub open spec fn stem_or(stem: Option<Seq<char>>, fallback: Seq<char>) -> Seq<char> {
    match stem {
        Some(s) => if s.len() > 0 {
            s
        } else {
            fallback
        },
        None => fallback,
    }
}

/// The text of an optional string.
pub open spec fn opt_text(s: Option<String>) -> Option<Seq<char>> {
    match s {
        Some(t) => Some(t@),
        None => None,
    }
}

/// A file or folder name made of a stem (or `fallback`) and `suffix`.
pub fn stem_name(stem: &Option<String>, fallback: &str, suffix: &str) -> (r: String)
    ensures
        r@ == stem_or(opt_text(*stem), fallback@) + suffix@,
{
    let mut v = match stem {
        Some(s) => {
            let c = chars_of(s.as_str());
            if c.len() > 0 {
                c
            } else {
                chars_of(fallback)
            }
        },
        None => chars_of(fallback),
    };
    push_str(&mut v, suffix);
    string_of(&v)
}

/// The folder a default output of plain path `p` goes in: the folder of
/// `p`, or `.` for a lone name.
pub open spec fn output_base(p: Seq<char>) -> Seq<char> {
    if parent_part(p).len() > 0 {
        parent_part(p)
    } else {
        seq!['.']
    }
}

/// `<stem>-book.pdf` for the last component of `p`.
pub open spec fn book_output_name(p: Seq<char>) -> Seq<char> {
    file_stem_of_name(name_part(p)) + "-book.pdf"@
}

/// `<stem>-images` for the last component of `p`.
pub open spec fn image_folder_name(p: Seq<char>) -> Seq<char> {
    file_stem_of_name(name_part(p)) + "-images"@
}

/// `<stem>-book.pdf` beside the input (or in `.`), `book` standing in for a
/// missing stem. For a plain input path the result is the input's folder
/// (or `.`) joined with `<stem>-book.pdf`.
pub fn default_book_output_path(input: &str) -> (r: String)
    ensures
        simple_path(input@) ==> joined_either(r@, output_base(input@), book_output_name(input@)),
{
    let stem = path_file_stem(input);
    let name = stem_name(&stem, "book", "-book.pdf");
    let parent = path_parent(input);
    let base = match parent {
        Some(p) => if !p.as_str().is_empty() {
            p
        } else {
            String::from_str(".")
        },
        None => String::from_str("."),
    };
    proof {
        if simple_path(input@) {
            lemma_simple_parts(input@);
            reveal_strlit("-book.pdf");
            reveal_strlit(".");
            let suffix = "-book.pdf"@;
            assert(no_separator(suffix));
            lemma_plain_name(file_stem_of_name(name_part(input@)), suffix);
            assert(name@ == book_output_name(input@));
            assert(base@ == output_base(input@));
            assert(join_base(base@));
        }
    }
    path_join(base.as_str(), name.as_str())
}

/// `<stem>-images` beside the input PDF, `output` standing in for a missing
/// stem; the bare folder name when the input has no parent. For a plain
/// input path the result is the input's folder joined with
/// `<stem>-images`, or that name alone for a lone file name.
pub fn default_image_output_folder(input_pdf: &str) -> (r: String)
    ensures
        simple_path(input_pdf@) ==> if parent_part(input_pdf@).len() > 0 {
            joined_either(r@, parent_part(input_pdf@), image_folder_name(input_pdf@))
        } else {
            r@ == image_folder_name(input_pdf@)
        },
{
    let stem = path_file_stem(input_pdf);
    let name = stem_name(&stem, "output", "-images");
    let parent = path_parent(input_pdf);
    proof {
        if simple_path(input_pdf@) {
            lemma_simple_parts(input_pdf@);
            reveal_strlit("-images");
            let suffix = "-images"@;
            assert(no_separator(suffix));
            lemma_plain_name(file_stem_of_name(name_part(input_pdf@)), suffix);
            assert(name@ == image_folder_name(input_pdf@));
        }
    }
    match parent {
        Some(p) => if !p.as_str().is_empty() {
            path_join(p.as_str(), name.as_str())
        } else {
            name
        },
        None => name,
    }
}


/// The lowercase hexadecimal digits.
pub open spec fn hex_digits() -> Seq<char> {
    seq!['0', '1', '2', '3', '4', '5', '6', '7', '8', '9', 'a', 'b', 'c', 'd', 'e', 'f']
}

/// The last `k` hexadecimal digits of `n`, zeros in front.
pub open spec fn hex_fixed(n: nat, k: nat) -> Seq<char>
    decreases k,
{
    if k == 0 {
        Seq::empty()
    } else {
        hex_fixed(n / 16, (k - 1) as nat).push(hex_digits()[(n % 16) as int])
    }
}

fn hex_digit(d: u64) -> (c: char)
    requires
        d < 16,
    ensures
        c == hex_digits()[d as int],
{
    match d {
        0 => '0',
        1 => '1',
        2 => '2',
        3 => '3',
        4 => '4',
        5 => '5',
        6 => '6',
        7 => '7',
        8 => '8',
        9 => '9',
        10 => 'a',
        11 => 'b',
        12 => 'c',
        13 => 'd',
        14 => 'e',
        _ => 'f',
    }
}

fn hex_fixed_chars(n: u64, k: usize) -> (v: Vec<char>)
    ensures
        v@ == hex_fixed(n as nat, k as nat),
    decreases k,
{
    if k == 0 {
        Vec::new()
    } else {
        let mut v = hex_fixed_chars(n / 16, k - 1);
        v.push(hex_digit(n % 16));
        v
    }
}

/// The name of the default work folder: `img2pdf-book-<stem>-<fingerprint>`,
/// the output's stem (or `output`) and the fingerprint as 16 lowercase
/// hexadecimal digits.
pub open spec fn work_dir_name_of(stem: Option<Seq<char>>, fingerprint: u64) -> Seq<char> {
    "img2pdf-book-"@ + stem_or(stem, "output"@) + "-"@ + hex_fixed(fingerprint as nat, 16)
}

/// The name of the default work folder, for an output stem and a
/// fingerprint of the input and output paths.
pub fn work_dir_name(stem: &Option<String>, fingerprint: u64) -> (r: String)
    ensures
        r@ == work_dir_name_of(opt_text(*stem), fingerprint),
{
    let mut v = chars_of("img2pdf-book-");
    let name = stem_name(stem, "output", "-");
    push_str(&mut v, name.as_str());
    let hex = hex_fixed_chars(fingerprint, 16);
    let ghost before = v@;
    let mut i: usize = 0;
    while i < hex.len()
        invariant
            i <= hex.len(),
            v@ == before + hex@.take(i as int),
        decreases hex.len() - i,
    {
        v.push(hex[i]);
        i = i + 1;
        assert(v@ =~= before + hex@.take(i as int));
    }
    assert(hex@.take(i as int) =~= hex@);
    assert(v@ =~= work_dir_name_of(opt_text(*stem), fingerprint));
    string_of(&v)
}

} // verus!
