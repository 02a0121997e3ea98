//! Entry names: which entries are assets, and the path an entry is written to.

use vstd::prelude::*;
use vstd::std_specs::iter::IteratorSpec;
use vstd::string::StrSliceExecFns;

verus! {

broadcast use vstd::string::group_string_axioms;

/// The character at which an entry name is cut.
pub open spec fn terminator() -> char {
    '\0'
}

/// The prefix that the name of every asset entry starts with.
pub open spec fn asset_prefix() -> Seq<char> {
    "assets/minecraft"@
}

/// Whether an entry of this name is an asset. The name is taken as the
/// archive gives it, before any cut.
pub open spec fn is_asset(name: Seq<char>) -> bool {
    asset_prefix().is_prefix_of(name)
}

/// The name up to, and without, its first terminator; the whole name where it
/// holds none.
pub open spec fn sanitized(name: Seq<char>) -> Seq<char> {
    match name.index_of_first(terminator()) {
        Some(k) => name.take(k),
        None => name,
    }
}

/// Counts the characters that stand before the first terminator.
fn terminator_position(name: &str) -> (k: usize)
    ensures
        k <= name@.len(),
        forall|j: int| 0 <= j < k ==> name@[j] != terminator(),
        k < name@.len() ==> name@[k as int] == terminator(),
{
    let n: usize = name.unicode_len();
    let mut chars = name.chars();
    let mut k: usize = 0;
    while k < n
        invariant
            n == name@.len(),
            k <= n,
            chars.obeys_prophetic_iter_laws(),
            chars.remaining() == name@.skip(k as int),
            forall|j: int| 0 <= j < k ==> name@[j] != terminator(),
        decreases n - k,
    {
        match chars.next() {
            Some(c) => {
                if c == '\0' {
                    return k;
                }
                k = k + 1;
            },
            None => {
                return k;
            },
        }
    }
    k
}

/// Cuts an entry name at its first terminator.
pub fn sanitize_filename(filename: &str) -> (path: String)
    ensures
        path@ == sanitized(filename@),
{
    let k: usize = terminator_position(filename);
    proof {
        filename@.index_of_first_ensures(terminator());
    }
    filename.substring_char(0, k).to_owned()
}

/// Tells whether `text` begins with `prefix`.
fn starts_with(text: &str, prefix: &str) -> (b: bool)
    ensures
        b == prefix@.is_prefix_of(text@),
{
    let n: usize = prefix.unicode_len();
    let mut wanted = prefix.chars();
    let mut given = text.chars();
    let mut k: usize = 0;
    while k < n
        invariant
            n == prefix@.len(),
            k <= n,
            wanted.obeys_prophetic_iter_laws(),
            given.obeys_prophetic_iter_laws(),
            wanted.remaining() == prefix@.skip(k as int),
            given.remaining() == text@.skip(k as int),
            k <= text@.len(),
            forall|j: int| 0 <= j < k ==> text@[j] == prefix@[j],
        decreases n - k,
    {
        let w = wanted.next();
        let g = given.next();
        match (w, g) {
            (Some(a), Some(b)) => {
                if a != b {
                    assert(text@[k as int] != prefix@[k as int]);
                    assert(!prefix@.is_prefix_of(text@)) by {
                        if prefix@.is_prefix_of(text@) {
                            assert(text@.subrange(0, prefix@.len() as int)[k as int] == prefix@[k as int]);
                        }
                    }
                    return false;
                }
                k = k + 1;
            },
            _ => {
                return false;
            },
        }
    }
    assert(prefix@ =~= text@.subrange(0, prefix@.len() as int));
    true
}

/// Tells whether an entry of this name is an asset.
pub fn is_asset_name(name: &str) -> (b: bool)
    ensures
        b == is_asset(name@),
{
    starts_with(name, "assets/minecraft")
}

/// Cutting a name that was cut already changes nothing.
pub proof fn lemma_sanitized_idempotent(name: Seq<char>)
    ensures
        sanitized(sanitized(name)) == sanitized(name),
{
    name.index_of_first_ensures(terminator());
    let cut = sanitized(name);
    cut.index_of_first_ensures(terminator());
    if cut.index_of_first(terminator()) is Some {
        let j = cut.index_of_first(terminator())->0;
        assert(cut[j] == name[j]);
    }
}

/// A name with its first terminator at `k` is cut to its first `k`
/// characters.
pub proof fn lemma_sanitized_cuts_at_first_terminator(name: Seq<char>, k: int)
    requires
        0 <= k < name.len(),
        name[k] == terminator(),
        forall|j: int| 0 <= j < k ==> name[j] != terminator(),
    ensures
        sanitized(name) == name.take(k),
{
    name.index_of_first_ensures(terminator());
}

/// A name that holds no terminator is kept whole.
pub proof fn lemma_sanitized_keeps_clean_name(name: Seq<char>)
    requires
        !name.contains(terminator()),
    ensures
        sanitized(name) == name,
{
    name.index_of_first_ensures(terminator());
}

/// What a cut leaves is the longest start of the name that holds no
/// terminator.
pub proof fn lemma_sanitized_is_clean_prefix(name: Seq<char>)
    ensures
        sanitized(name).is_prefix_of(name),
        !sanitized(name).contains(terminator()),
        sanitized(name).len() < name.len() ==> name[sanitized(name).len() as int] == terminator(),
{
    name.index_of_first_ensures(terminator());
    let cut = sanitized(name);
    assert(cut =~= name.subrange(0, cut.len() as int));
    if cut.contains(terminator()) {
        let j = choose|j: int| 0 <= j < cut.len() && cut[j] == terminator();
        assert(name[j] == terminator());
    }
}

/// The cut never reaches into the asset prefix: an asset's path still starts
/// with it, so the path is not empty and lies under the directory `assets`.
pub proof fn lemma_sanitized_keeps_asset_prefix(name: Seq<char>)
    requires
        is_asset(name),
    ensures
        is_asset(sanitized(name)),
        sanitized(name).len() >= 16,
        sanitized(name).take(7) == "assets/"@,
{
    reveal_strlit("assets/minecraft");
    reveal_strlit("assets/");
    name.index_of_first_ensures(terminator());
    let prefix = asset_prefix();
    assert(forall|j: int| 0 <= j < 16 ==> name[j] == name.subrange(0, 16)[j]);
    assert(forall|j: int| 0 <= j < 16 ==> name[j] == prefix[j]);
    assert(forall|j: int| 0 <= j < 16 ==> name[j] != terminator());
    let cut = sanitized(name);
    assert(cut.len() >= 16) by {
        if name.index_of_first(terminator()) is Some {
            let k = name.index_of_first(terminator())->0;
            if k < 16 {
                assert(name[k] != terminator());
            }
        }
    }
    assert(prefix =~= cut.subrange(0, 16));
    assert(cut.take(7) =~= "assets/"@);
}

} // verus!
