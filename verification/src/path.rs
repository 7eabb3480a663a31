//! Slash-separated paths.
use crate::text::{characters, texts};
use vstd::prelude::*;

verus! {

/// A name that can stand between two slashes: not empty and without a slash.
pub open spec fn is_name(text: Seq<char>) -> bool {
    text.len() > 0 && !text.contains('/')
}

/// The texts between the slashes of a path, empty ones included.
pub open spec fn segments(path: Seq<char>) -> Seq<Seq<char>>
    decreases path.len(),
{
    if path.len() == 0 {
        seq![Seq::empty()]
    } else {
        let before = segments(path.drop_last());
        if path.last() == '/' {
            before.push(Seq::empty())
        } else {
            before.drop_last().push(before.last().push(path.last()))
        }
    }
}

/// The predicate that keeps the segments that are not empty.
pub open spec fn is_filled() -> spec_fn(Seq<char>) -> bool {
    |segment: Seq<char>| segment.len() > 0
}

/// The components of a path: its segments that are not empty, in order.
pub open spec fn path_parts(path: Seq<char>) -> Seq<Seq<char>> {
    segments(path).filter(is_filled())
}

/// The last segment of a path, the slashes at its end left aside. Empty for a
/// path without components.
pub open spec fn last_name(path: Seq<char>) -> Seq<char>
    decreases path.len(),
{
    if path.len() > 0 && path.last() == '/' {
        last_name(path.drop_last())
    } else {
        segments(path).last()
    }
}

/// Splits a path into its components.
pub fn split_path(path: &str) -> (parts: Vec<String>)
    ensures
        texts(parts@) == path_parts(path@),
{
    let chars = characters(path);
    let mut parts: Vec<String> = Vec::new();
    let mut current = String::new();
    let mut i: usize = 0;
    proof {
        reveal(Seq::filter);
        assert(path@.take(0) =~= Seq::empty());
        assert(segments(path@.take(0)).drop_last() =~= Seq::empty());
        assert(texts(parts@) =~= Seq::empty());
    }
    while i < chars.len()
        invariant
            chars@ == path@,
            i <= chars@.len(),
            segments(path@.take(i as int)).len() > 0,
            current@ == segments(path@.take(i as int)).last(),
            texts(parts@) == segments(path@.take(i as int)).drop_last().filter(is_filled()),
        decreases chars.len() - i,
    {
        let c: char = chars[i];
        let ghost seen = segments(path@.take(i as int));
        let ghost now = segments(path@.take(i + 1));
        proof {
            reveal(Seq::filter);
            assert(path@.take(i + 1).drop_last() =~= path@.take(i as int));
            assert(path@.take(i + 1).last() == c);
        }
        if c == '/' {
            let ghost before = parts@;
            if !current.as_str().is_empty() {
                parts.push(current);
                assert(texts(parts@) =~= texts(before).push(seen.last()));
            }
            current = String::new();
            assert(now.drop_last() =~= seen);
            assert(texts(parts@) =~= seen.filter(is_filled()));
        } else {
            current.push(c);
            assert(now.drop_last() =~= seen.drop_last());
        }
        i = i + 1;
    }
    let ghost all = segments(path@);
    proof {
        reveal(Seq::filter);
        assert(path@.take(i as int) =~= path@);
    }
    let ghost before = parts@;
    if !current.as_str().is_empty() {
        parts.push(current);
        assert(texts(parts@) =~= texts(before).push(all.last()));
    }
    assert(texts(parts@) =~= all.filter(is_filled()));
    parts
}

/// The last component of a path; empty where the path has none.
pub fn file_name(path: &str) -> (name: String)
    ensures
        name@ == last_name(path@),
{
    let parts = split_path(path);
    proof {
        law_last_name_is_last_part(path@);
    }
    if parts.len() == 0 {
        String::new()
    } else {
        parts[parts.len() - 1].clone()
    }
}

// ---------------------------------------------------------------------------
// Laws
// ---------------------------------------------------------------------------

proof fn lemma_segments_nonempty(path: Seq<char>)
    ensures
        segments(path).len() > 0,
        forall|i: int|
            0 <= i < segments(path).len() ==> !(#[trigger] segments(path)[i]).contains('/'),
    decreases path.len(),
{
    if path.len() > 0 {
        lemma_segments_nonempty(path.drop_last());
        let before = segments(path.drop_last());
        assert forall|i: int| 0 <= i < segments(path).len() implies !(#[trigger] segments(
            path,
        )[i]).contains('/') by {
            if path.last() != '/' && i == before.len() - 1 {
                assert(!before[i].contains('/'));
                let longer = before.last().push(path.last());
                if longer.contains('/') {
                    let k = choose|k: int| 0 <= k < longer.len() && longer[k] == '/';
                    assert(before.last()[k] == '/');
                }
            } else if i < before.len() {
                assert(!before[i].contains('/'));
            }
        }
    }
}

/// The components of a path are names: none is empty, none holds a slash.
pub proof fn law_parts_are_names(path: Seq<char>)
    ensures
        forall|i: int| 0 <= i < path_parts(path).len() ==> is_name(#[trigger] path_parts(path)[i]),
{
    lemma_segments_nonempty(path);
    let all = segments(path);
    let parts = path_parts(path);
    assert forall|i: int| 0 <= i < parts.len() implies is_name(#[trigger] parts[i]) by {
        all.lemma_filter_pred(is_filled(), i);
        assert(parts.contains(parts[i]));
        all.lemma_filter_contains_rev(is_filled(), parts[i]);
        let k = choose|k: int| 0 <= k < all.len() && all[k] == parts[i];
        assert(!all[k].contains('/'));
    }
}

proof fn lemma_segments_join(a: Seq<char>, b: Seq<char>)
    ensures
        segments(a.push('/') + b) == segments(a) + segments(b),
    decreases b.len(),
{
    lemma_segments_nonempty(b);
    if b.len() == 0 {
        assert((a.push('/') + b) =~= a.push('/'));
        assert(a.push('/').drop_last() =~= a);
        assert(segments(a).push(Seq::empty()) =~= segments(a) + seq![Seq::<char>::empty()]);
    } else {
        lemma_segments_join(a, b.drop_last());
        lemma_segments_nonempty(b.drop_last());
        let whole = a.push('/') + b;
        assert(whole.drop_last() =~= a.push('/') + b.drop_last());
        assert(whole.last() == b.last());
        assert(segments(whole) =~= segments(a) + segments(b));
    }
}

/// The components of two paths with a slash between them are those of the
/// first and then those of the second.
pub proof fn law_slash_joins_paths(a: Seq<char>, b: Seq<char>)
    ensures
        path_parts(a.push('/') + b) == path_parts(a) + path_parts(b),
{
    lemma_segments_join(a, b);
    Seq::filter_distributes_over_add(segments(a), segments(b), is_filled());
}

proof fn lemma_no_parts_of_empty()
    ensures
        path_parts(Seq::empty()) == Seq::<Seq<char>>::empty(),
{
    reveal(Seq::filter);
    let one = segments(Seq::empty());
    assert(one.drop_last() =~= Seq::empty());
    assert(one.drop_last().filter(is_filled()) =~= Seq::empty());
}

/// Slashes at the start or at the end of a path do not change its components.
pub proof fn law_outer_slashes_do_not_matter(path: Seq<char>)
    ensures
        path_parts(seq!['/'] + path) == path_parts(path),
        path_parts(path.push('/')) == path_parts(path),
{
    lemma_no_parts_of_empty();
    law_slash_joins_paths(Seq::empty(), path);
    assert(Seq::<char>::empty().push('/') + path =~= seq!['/'] + path);
    assert(Seq::<Seq<char>>::empty() + path_parts(path) =~= path_parts(path));
    law_slash_joins_paths(path, Seq::empty());
    assert(path.push('/') + Seq::empty() =~= path.push('/'));
    assert(path_parts(path) + Seq::<Seq<char>>::empty() =~= path_parts(path));
}

proof fn lemma_segments_of_plain(text: Seq<char>)
    requires
        !text.contains('/'),
    ensures
        segments(text) == seq![text],
    decreases text.len(),
{
    if text.len() > 0 {
        let shorter = text.drop_last();
        if shorter.contains('/') {
            let k = choose|k: int| 0 <= k < shorter.len() && shorter[k] == '/';
            assert(text[k] == '/');
        }
        assert(text[text.len() - 1] == text.last());
        lemma_segments_of_plain(shorter);
        assert(shorter.push(text.last()) =~= text);
        assert(segments(text) =~= seq![text]);
    } else {
        assert(text =~= Seq::empty());
    }
}

/// A name is a path of one component, itself.
pub proof fn law_name_is_a_path(name: Seq<char>)
    requires
        is_name(name),
    ensures
        path_parts(name) == seq![name],
{
    reveal(Seq::filter);
    lemma_segments_of_plain(name);
    let one = seq![name];
    assert(one.drop_last() =~= Seq::empty());
    assert(one.drop_last().filter(is_filled()) =~= Seq::empty());
    assert(one.filter(is_filled()) =~= one);
}

/// The last name of a path is its last component, or empty where it has none.
pub proof fn law_last_name_is_last_part(path: Seq<char>)
    ensures
        last_name(path) == if path_parts(path).len() == 0 {
            Seq::empty()
        } else {
            path_parts(path).last()
        },
    decreases path.len(),
{
    reveal(Seq::filter);
    if path.len() > 0 && path.last() == '/' {
        law_last_name_is_last_part(path.drop_last());
        law_outer_slashes_do_not_matter(path.drop_last());
        assert(path.drop_last().push('/') =~= path);
    } else if path.len() == 0 {
        assert(path =~= Seq::empty());
        lemma_no_parts_of_empty();
    } else {
        lemma_segments_nonempty(path);
        lemma_segments_nonempty(path.drop_last());
        assert(is_filled()(segments(path).last()));
    }
}

} // verus!
