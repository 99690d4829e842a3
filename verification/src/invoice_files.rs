//! Where the files of a reviewed invoice are saved: safe file names and
//! names that do not overwrite an existing file.
use vstd::prelude::*;

use crate::drive_upload::UploadedInvoiceFiles;
use crate::text::{strings_view, chars_of, decimal, decimal_string, lemma_decimal_digits, digits_value, owned, string_from_chars, slice_chars};

verus! {

/// The folder the invoice files go to unless the settings name another.
pub const DEFAULT_DOWNLOAD_DIR: &'static str = "downloaded_invoices";

/// The files saved for one invoice, and where they went on Drive.
#[derive(Clone, Debug, PartialEq, Eq)]
pub struct SavedInvoiceFiles {
    pub json_path: String,
    pub pdf_path: String,
    pub drive_upload: Option<UploadedInvoiceFiles>,
}

/// A character that may stay in a file name: an ASCII letter or digit, `.`,
/// `-` or `_`.
pub open spec fn is_safe_char(c: char) -> bool {
    ('a' <= c <= 'z') || ('A' <= c <= 'Z') || ('0' <= c <= '9') || c == '.' || c == '-' || c == '_'
}

/// Every unsafe character replaced by `_`.
pub open spec fn replace_unsafe(s: Seq<char>) -> Seq<char> {
    s.map_values(|c: char| if is_safe_char(c) { c } else { '_' })
}

/// A character that `trim_matches(['_', '.'])` removes at either end.
pub open spec fn is_edge_char(c: char) -> bool {
    c == '_' || c == '.'
}

/// `s` without leading and trailing `_` and `.`.
pub open spec fn trim_edges(s: Seq<char>) -> Seq<char>
    decreases s.len(),
{
    if s.len() > 0 && is_edge_char(s[0]) {
        trim_edges(s.drop_first())
    } else if s.len() > 0 && is_edge_char(s.last()) {
        trim_edges(s.drop_last())
    } else {
        s
    }
}

/// The longest a sanitized file name may be.
pub const MAX_FILENAME_LEN: usize = 120;

/// A file name safe to write: unsafe characters replaced by `_`, `_` and `.`
/// trimmed from both ends, at most 120 characters kept.
pub open spec fn sanitize_spec(s: Seq<char>) -> Seq<char> {
    let t = trim_edges(replace_unsafe(s));
    if t.len() > MAX_FILENAME_LEN {
        t.take(MAX_FILENAME_LEN as int)
    } else {
        t
    }
}

fn safe_char(c: char) -> (b: bool)
    ensures
        b == is_safe_char(c),
{
    ('a' <= c && c <= 'z') || ('A' <= c && c <= 'Z') || ('0' <= c && c <= '9') || c == '.' || c
        == '-' || c == '_'
}

proof fn lemma_trim_edges_window(s: Seq<char>, a: int, b: int)
    requires
        0 <= a <= b <= s.len(),
        forall|k: int| 0 <= k < a ==> is_edge_char(#[trigger] s[k]),
        forall|k: int| b <= k < s.len() ==> is_edge_char(#[trigger] s[k]),
        a < b ==> !is_edge_char(s[a]) && !is_edge_char(s[b - 1]),
    ensures
        trim_edges(s) == s.subrange(a, b),
    decreases s.len(),
{
    if s.len() > 0 && is_edge_char(s[0]) {
        assert(a > 0 || b == 0);
        if a > 0 {
            assert forall|k: int| 0 <= k < a - 1 implies is_edge_char(#[trigger] s.drop_first()[k]) by {
                assert(s.drop_first()[k] == s[k + 1]);
            }
            assert forall|k: int| b - 1 <= k < s.drop_first().len() implies is_edge_char(#[trigger] s.drop_first()[k]) by {
                assert(s.drop_first()[k] == s[k + 1]);
            }
            lemma_trim_edges_window(s.drop_first(), a - 1, b - 1);
            assert(s.drop_first().subrange(a - 1, b - 1) =~= s.subrange(a, b));
        } else {
            assert forall|k: int| 0 <= k < s.drop_first().len() implies is_edge_char(#[trigger] s.drop_first()[k]) by {
                assert(s.drop_first()[k] == s[k + 1]);
            }
            lemma_trim_edges_window(s.drop_first(), 0, 0);
            assert(s.subrange(0, 0) =~= s.drop_first().subrange(0, 0));
        }
    } else if s.len() > 0 && is_edge_char(s.last()) {
        assert(b < s.len());
        assert forall|k: int| 0 <= k < a implies is_edge_char(#[trigger] s.drop_last()[k]) by {
            assert(s.drop_last()[k] == s[k]);
        }
        assert forall|k: int| b <= k < s.drop_last().len() implies is_edge_char(#[trigger] s.drop_last()[k]) by {
            assert(s.drop_last()[k] == s[k]);
        }
        lemma_trim_edges_window(s.drop_last(), a, b);
        assert(s.drop_last().subrange(a, b) =~= s.subrange(a, b));
    } else {
        if s.len() > 0 {
            assert(a == 0);
            assert(b == s.len());
        }
        assert(s.subrange(a, b) =~= s);
    }
}

/// What `trim_edges` leaves is a stretch of the text it trims.
proof fn lemma_trim_edges_stretch(s: Seq<char>)
    ensures
        exists|a: int, b: int| 0 <= a <= b <= s.len() && #[trigger] s.subrange(a, b) == trim_edges(s),
    decreases s.len(),
{
    if s.len() > 0 && is_edge_char(s[0]) {
        lemma_trim_edges_stretch(s.drop_first());
        let (a, b) = choose|a: int, b: int| 0 <= a <= b <= s.drop_first().len()
            && #[trigger] s.drop_first().subrange(a, b) == trim_edges(s.drop_first());
        assert(s.subrange(a + 1, b + 1) =~= s.drop_first().subrange(a, b));
    } else if s.len() > 0 && is_edge_char(s.last()) {
        lemma_trim_edges_stretch(s.drop_last());
        let (a, b) = choose|a: int, b: int| 0 <= a <= b <= s.drop_last().len()
            && #[trigger] s.drop_last().subrange(a, b) == trim_edges(s.drop_last());
        assert(s.subrange(a, b) =~= s.drop_last().subrange(a, b));
    } else {
        assert(s.subrange(0, s.len() as int) =~= s);
    }
}

/// What `trim_edges` leaves neither starts nor ends with `_` or `.`.
proof fn lemma_trim_edges_clean(s: Seq<char>)
    ensures
        trim_edges(s).len() > 0 ==> !is_edge_char(trim_edges(s)[0]) && !is_edge_char(trim_edges(s).last()),
    decreases s.len(),
{
    if s.len() > 0 && is_edge_char(s[0]) {
        lemma_trim_edges_clean(s.drop_first());
    } else if s.len() > 0 && is_edge_char(s.last()) {
        lemma_trim_edges_clean(s.drop_last());
    }
}

/// A sanitized file name comes out of sanitizing unchanged, unless it was
/// cut to 120 characters (the cut may end on a `_` or `.`, which a second
/// pass trims).
pub proof fn law_sanitize_idempotent(s: Seq<char>)
    requires
        trim_edges(replace_unsafe(s)).len() <= MAX_FILENAME_LEN,
    ensures
        sanitize_spec(sanitize_spec(s)) == sanitize_spec(s),
{
    let t = trim_edges(replace_unsafe(s));
    lemma_trim_edges_stretch(replace_unsafe(s));
    let (a, b) = choose|a: int, b: int| 0 <= a <= b <= replace_unsafe(s).len()
        && #[trigger] replace_unsafe(s).subrange(a, b) == trim_edges(replace_unsafe(s));
    assert forall|i: int| 0 <= i < t.len() implies is_safe_char(#[trigger] t[i]) by {
        assert(t[i] == replace_unsafe(s)[a + i]);
    }
    assert(replace_unsafe(t) =~= t);
    lemma_trim_edges_clean(replace_unsafe(s));
    assert(trim_edges(t) == t);
}

/// A file name safe to write (see `sanitize_spec`).
pub fn sanitize_filename(value: &str) -> (r: String)
    ensures
        r@ == sanitize_spec(value@),
{
    let chars = chars_of(value);
    let mut mapped: Vec<char> = Vec::new();
    let mut i: usize = 0;
    while i < chars.len()
        invariant
            i <= chars.len(),
            chars@ == value@,
            mapped@ == replace_unsafe(chars@.take(i as int)),
        decreases chars.len() - i,
    {
        let c = chars[i];
        if safe_char(c) {
            mapped.push(c);
        } else {
            mapped.push('_');
        }
        i = i + 1;
        proof {
            assert(mapped@ =~= replace_unsafe(chars@.take(i as int)));
        }
    }
    proof {
        assert(chars@.take(i as int) =~= chars@);
    }
    let n = mapped.len();
    let mut a: usize = 0;
    while a < n && (mapped[a] == '_' || mapped[a] == '.')
        invariant
            a <= n == mapped.len(),
            forall|k: int| 0 <= k < a ==> is_edge_char(#[trigger] mapped@[k]),
        decreases n - a,
    {
        a = a + 1;
    }
    let mut b: usize = n;
    while b > a && (mapped[b - 1] == '_' || mapped[b - 1] == '.')
        invariant
            a <= b <= n == mapped.len(),
            forall|k: int| b <= k < n ==> is_edge_char(#[trigger] mapped@[k]),
        decreases b,
    {
        b = b - 1;
    }
    proof {
        if a == b && a < n {
            // all characters are edge characters: move the window to the front
            assert forall|k: int| 0 <= k < n implies is_edge_char(#[trigger] mapped@[k]) by {
                if k >= a {
                    assert(k >= b);
                }
            }
            lemma_trim_edges_window(mapped@, 0, 0);
            assert(mapped@.subrange(0, 0) =~= mapped@.subrange(a as int, b as int));
        } else {
            lemma_trim_edges_window(mapped@, a as int, b as int);
        }
    }
    let end = if b - a > MAX_FILENAME_LEN {
        a + MAX_FILENAME_LEN
    } else {
        b
    };
    let kept = slice_chars(&mapped, a, end);
    proof {
        let t = mapped@.subrange(a as int, b as int);
        if b - a > MAX_FILENAME_LEN {
            assert(kept@ =~= t.take(MAX_FILENAME_LEN as int));
        }
    }
    string_from_chars(&kept)
}

// ---------------------------------------------------------------------------
// Names that do not overwrite
// ---------------------------------------------------------------------------

/// The sanitized attachment name, or `attachment` when nothing is left of it.
pub open spec fn attachment_name(filename: Seq<char>) -> Seq<char> {
    if sanitize_spec(filename).len() == 0 {
        "attachment"@
    } else {
        sanitize_spec(filename)
    }
}

/// The file name of the given attempt: `prefix-name` first, then
/// `prefix-2-name`, `prefix-3-name` and so on.
pub open spec fn attempt_name(prefix: Seq<char>, name: Seq<char>, attempt: nat) -> Seq<char> {
    if attempt <= 1 {
        prefix + "-"@ + name
    } else {
        prefix + "-"@ + decimal(attempt) + "-"@ + name
    }
}

/// The first attempt, counted from one, whose name `existing` does not hold.
pub open spec fn is_first_free(prefix: Seq<char>, name: Seq<char>, existing: Seq<Seq<char>>, attempt: nat) -> bool {
    &&& attempt >= 1
    &&& !existing.contains(attempt_name(prefix, name, attempt))
    &&& forall|k: nat| 1 <= k < attempt ==> existing.contains(#[trigger] attempt_name(prefix, name, k))
}

/// Distinct attempts have distinct names.
pub proof fn lemma_attempt_names_distinct(prefix: Seq<char>, name: Seq<char>, j: nat, k: nat)
    requires
        1 <= j < k,
    ensures
        attempt_name(prefix, name, j) != attempt_name(prefix, name, k),
{
    reveal_strlit("-");
    lemma_decimal_digits(j);
    lemma_decimal_digits(k);
    let a = attempt_name(prefix, name, j);
    let b = attempt_name(prefix, name, k);
    if a == b {
        if j == 1 {
            assert(a.len() < b.len());
        } else {
            let dj = decimal(j);
            let dk = decimal(k);
            // the names agree on the digits between the first two dashes
            let p = prefix.len() + 1;
            if dj.len() == dk.len() {
                assert(a.subrange(p as int, p as int + dj.len()) =~= dj);
                assert(b.subrange(p as int, p as int + dk.len()) =~= dk);
                assert(dj == dk);
            } else {
                assert(a.len() != b.len());
            }
        }
    }
}

/// Among the names of `existing.len() + 1` attempts, one is free.
proof fn lemma_some_attempt_free(prefix: Seq<char>, name: Seq<char>, existing: Seq<Seq<char>>, n: nat)
    requires
        existing.len() <= n,
    ensures
        exists|k: nat| 1 <= k <= n + 1 && !existing.contains(#[trigger] attempt_name(prefix, name, k)),
    decreases n,
{
    let top = attempt_name(prefix, name, n + 1);
    if !existing.contains(top) {
        assert(1 <= n + 1 <= n + 1 && !existing.contains(attempt_name(prefix, name, (n + 1) as nat)));
    } else {
        let idx = choose|i: int| 0 <= i < existing.len() && existing[i] == top;
        let rest = existing.remove(idx);
        assert(n >= 1);
        lemma_some_attempt_free(prefix, name, rest, (n - 1) as nat);
        let k = choose|k: nat| 1 <= k <= n && !rest.contains(#[trigger] attempt_name(prefix, name, k));
        lemma_attempt_names_distinct(prefix, name, k, n + 1);
        if existing.contains(attempt_name(prefix, name, k)) {
            let i = choose|i: int| 0 <= i < existing.len() && existing[i] == attempt_name(prefix, name, k);
            if i < idx {
                assert(rest[i] == existing[i]);
            } else if i > idx {
                assert(rest[i - 1] == existing[i]);
            }
        }
    }
}

/// The name for the file `filename` of the invoice `prefix` in a folder that
/// holds the files `existing`: the first attempt whose name is free.
pub fn unique_name(prefix: &str, filename: &str, existing: &Vec<String>) -> (r: String)
    requires
        existing.len() < usize::MAX,
    ensures
        exists|attempt: nat| #[trigger] is_first_free(prefix@, attachment_name(filename@), strings_view(existing@), attempt)
            && r@ == attempt_name(prefix@, attachment_name(filename@), attempt),
{
    let sanitized = sanitize_filename(filename);
    let name = if sanitized.as_str().unicode_len() == 0 {
        owned("attachment")
    } else {
        sanitized
    };
    let ghost taken = strings_view(existing@);
    proof {
        lemma_some_attempt_free(prefix@, name@, taken, taken.len());
    }
    let mut attempt: usize = 1;
    loop
        invariant
            1 <= attempt <= existing.len() + 1,
            existing.len() < usize::MAX,
            taken == strings_view(existing@),
            name@ == attachment_name(filename@),
            forall|k: nat| 1 <= k < attempt ==> taken.contains(#[trigger] attempt_name(prefix@, name@, k)),
            exists|k: nat| 1 <= k <= existing.len() + 1 && !taken.contains(#[trigger] attempt_name(prefix@, name@, k)),
        decreases existing.len() + 1 - attempt,
    {
        let candidate = attempt_text(prefix, name.as_str(), attempt);
        if !holds_text(existing, &candidate) {
            proof {
                assert(is_first_free(prefix@, name@, taken, attempt as nat));
            }
            return candidate;
        }
        proof {
            if attempt == existing.len() + 1 {
                let k = choose|k: nat| 1 <= k <= existing.len() + 1 && !taken.contains(#[trigger] attempt_name(prefix@, name@, k));
                if k < attempt {
                    assert(taken.contains(attempt_name(prefix@, name@, k)));
                } else {
                    assert(k == attempt);
                }
            }
        }
        attempt = attempt + 1;
    }
}

/// The name of the given attempt.
fn attempt_text(prefix: &str, name: &str, attempt: usize) -> (r: String)
    ensures
        r@ == attempt_name(prefix@, name@, attempt as nat),
{
    let mut r = owned(prefix);
    r.append("-");
    if attempt > 1 {
        let number = decimal_string(attempt as u64);
        r.append(number.as_str());
        r.append("-");
    }
    r.append(name);
    r
}

/// Whether `names` holds the text of `name`.
fn holds_text(names: &Vec<String>, name: &String) -> (b: bool)
    ensures
        b == strings_view(names@).contains(name@),
{
    let mut i: usize = 0;
    while i < names.len()
        invariant
            i <= names.len(),
            forall|k: int| 0 <= k < i ==> names@[k]@ != name@,
        decreases names.len() - i,
    {
        if names[i] == *name {
            proof {
                assert(strings_view(names@)[i as int] == name@);
            }
            return true;
        }
        i = i + 1;
    }
    proof {
        let all = strings_view(names@);
        if all.contains(name@) {
            let k = choose|k: int| 0 <= k < all.len() && #[trigger] all[k] == name@;
            assert(names@[k]@ == name@);
        }
    }
    false
}

/// What `Path::new(directory).join(name)` gives, as text.
pub uninterp spec fn path_joined(directory: Seq<char>, name: Seq<char>) -> Seq<char>;

/// Joins a file name to a folder with `std::path::Path::join`; only the name
/// `path_joined` is claimed of the result.
#[verifier::external_body]
pub(crate) fn join_path(directory: &str, name: &str) -> (r: String)
    ensures
        r@ == path_joined(directory@, name@),
{
    std::path::Path::new(directory).join(name).to_string_lossy().into_owned()
}

/// The path for the file `filename` of the invoice `prefix` in `directory`,
/// which holds the files `existing`: the first free attempt name, joined to
/// the folder.
pub fn unique_path(directory: &str, prefix: &str, filename: &str, existing: &Vec<String>) -> (r: String)
    requires
        existing.len() < usize::MAX,
    ensures
        exists|attempt: nat| #[trigger] is_first_free(prefix@, attachment_name(filename@), strings_view(existing@), attempt)
            && r@ == path_joined(directory@, attempt_name(prefix@, attachment_name(filename@), attempt)),
{
    let name = unique_name(prefix, filename, existing);
    join_path(directory, name.as_str())
}

} // verus!
