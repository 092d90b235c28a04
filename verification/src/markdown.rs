//! Assembling the rendered pieces of a file into one document.

use vstd::prelude::*;
use crate::parser::{file_fragments, fragments_of, parse_tags, Fragment, MarkdownTag};
use crate::tag::{tag_models, TagNode};

verus! {

/// The labels that have a fixed place in a document, in the order of their
/// places.
pub open spec fn canonical_order() -> Seq<Seq<char>> {
    seq![
        "function"@,
        "description"@,
        "since"@,
        "category"@,
        "parameters"@,
        "returns"@,
        "example"@,
    ]
}

/// The index of the first piece at or after `from` that is labelled `label`,
/// or the length of `pool` where there is none.
pub open spec fn first_labelled(pool: Seq<Fragment>, label: Seq<char>, from: int) -> int
    decreases pool.len() - from,
{
    if from < 0 || from >= pool.len() || pool[from].kind == label {
        from
    } else {
        first_labelled(pool, label, from + 1)
    }
}

/// The pieces of `pool` in document order: for each label in turn the first
/// piece that carries it is moved out of the pool to the front part; what is
/// left in the pool follows, in the order it had.
pub open spec fn arrange(pool: Seq<Fragment>, labels: Seq<Seq<char>>) -> Seq<Fragment>
    decreases labels.len(),
{
    if labels.len() == 0 {
        pool
    } else {
        let at = first_labelled(pool, labels[0], 0);
        if at < pool.len() {
            seq![pool[at]] + arrange(pool.remove(at), labels.drop_first())
        } else {
            arrange(pool, labels.drop_first())
        }
    }
}

/// The text of each piece, each followed by a line feed.
pub open spec fn joined(pieces: Seq<Fragment>) -> Seq<char>
    decreases pieces.len(),
{
    if pieces.len() == 0 {
        Seq::empty()
    } else {
        joined(pieces.drop_last()) + pieces.last().value + "\n"@
    }
}

/// The document that the given pieces make.
pub open spec fn document_text(pieces: Seq<Fragment>) -> Seq<char> {
    joined(arrange(pieces, canonical_order()))
}

/// `first_labelled` stops on the first piece with the label.
proof fn lemma_first_labelled(pool: Seq<Fragment>, label: Seq<char>, from: int)
    requires
        0 <= from <= pool.len(),
    ensures
        from <= first_labelled(pool, label, from) <= pool.len(),
        forall|i: int|
            from <= i < first_labelled(pool, label, from) ==> (#[trigger] pool[i]).kind != label,
        first_labelled(pool, label, from) < pool.len() ==> pool[first_labelled(
            pool,
            label,
            from,
        )].kind == label,
    decreases pool.len() - from,
{
    if from < pool.len() && pool[from].kind != label {
        lemma_first_labelled(pool, label, from + 1);
    }
}

/// The index of the first piece labelled `label`, or the length of `pool`.
fn find_first(pool: &Vec<MarkdownTag>, label: &String) -> (at: usize)
    ensures
        at == first_labelled(fragments_of(pool@), label@, 0),
        at <= pool.len(),
{
    let ghost pieces = fragments_of(pool@);
    let mut i: usize = 0;
    while i < pool.len() && pool[i].kind != *label
        invariant
            i <= pool.len(),
            pieces == fragments_of(pool@),
            first_labelled(pieces, label@, i as int) == first_labelled(pieces, label@, 0),
        decreases pool.len() - i,
    {
        i += 1;
    }
    i
}

/// The canonical labels, in order.
fn canonical_labels() -> (labels: Vec<String>)
    ensures
        labels.deep_view() == canonical_order(),
{
    let labels = vec![
        String::from_str("function"),
        String::from_str("description"),
        String::from_str("since"),
        String::from_str("category"),
        String::from_str("parameters"),
        String::from_str("returns"),
        String::from_str("example"),
    ];
    assert(labels.deep_view() =~= canonical_order());
    labels
}

/// Builds the document of a file from its rendered pieces. For each of the
/// labels `function`, `description`, `since`, `category`, `parameters`,
/// `returns`, `example`, in this order, the first piece with that label comes
/// next; the pieces that are left follow in the order they were given. Each
/// piece's text is followed by one line feed.
pub fn build_markdown(parsed_tags: Vec<MarkdownTag>) -> (markdown: String)
    ensures
        markdown@ == document_text(fragments_of(parsed_tags@)),
{
    let ghost given = fragments_of(parsed_tags@);
    let mut pool = parsed_tags;
    let mut sorted: Vec<MarkdownTag> = Vec::new();
    let orders = canonical_labels();
    let ghost labels = orders.deep_view();
    let mut k: usize = 0;
    proof {
        assert(labels.skip(0) =~= labels);
        assert(fragments_of(sorted@) =~= Seq::<Fragment>::empty());
        assert(fragments_of(sorted@) + arrange(given, labels) =~= arrange(given, labels));
    }
    while k < orders.len()
        invariant
            k <= orders.len(),
            labels == orders.deep_view(),
            fragments_of(sorted@) + arrange(fragments_of(pool@), labels.skip(k as int)) == arrange(
                given,
                labels,
            ),
        decreases orders.len() - k,
    {
        let ghost pieces = fragments_of(pool@);
        let ghost front = fragments_of(sorted@);
        let at = find_first(&pool, &orders[k]);
        proof {
            assert(labels.skip(k as int).drop_first() =~= labels.skip(k + 1));
            assert(labels.skip(k as int)[0] == orders[k as int]@);
        }
        if at < pool.len() {
            let tag = pool.remove(at);
            sorted.push(tag);
            proof {
                assert(fragments_of(pool@) =~= pieces.remove(at as int));
                assert(fragments_of(sorted@) =~= front.push(pieces[at as int]));
                assert(fragments_of(sorted@) + arrange(fragments_of(pool@), labels.skip(k + 1))
                    =~= front + (seq![pieces[at as int]] + arrange(
                    pieces.remove(at as int),
                    labels.skip(k + 1),
                )));
            }
        }
        k += 1;
    }
    proof {
        assert(labels.skip(k as int).len() == 0);
    }
    let ghost front = fragments_of(sorted@);
    let ghost rest = fragments_of(pool@);
    sorted.append(&mut pool);
    assert(fragments_of(sorted@) =~= front + rest);
    let ghost ordered = fragments_of(sorted@);
    let mut markdown = String::new();
    let mut i: usize = 0;
    assert(ordered.take(0) =~= Seq::<Fragment>::empty());
    while i < sorted.len()
        invariant
            i <= sorted.len(),
            ordered == fragments_of(sorted@),
            markdown@ == joined(ordered.take(i as int)),
        decreases sorted.len() - i,
    {
        markdown.append(sorted[i].value.as_str());
        markdown.append("\n");
        proof {
            assert(ordered.take(i + 1).drop_last() =~= ordered.take(i as int));
            assert(ordered.take(i + 1).last() == sorted[i as int]@);
        }
        i += 1;
    }
    assert(ordered.take(i as int) =~= ordered);
    markdown
}

/// Renders the tags of a file as its document: each tag that is no parameter
/// tag by itself, the parameter tags as one table, all in document order.
pub fn render_tags(tags: &Vec<TagNode>) -> (markdown: String)
    ensures
        markdown@ == document_text(file_fragments(tag_models(tags@))),
{
    build_markdown(parse_tags(tags))
}

/// The pieces that carry the first label, then those that carry the second,
/// and so on, each group in the order it has in `pool`.
pub open spec fn grouped(pool: Seq<Fragment>, labels: Seq<Seq<char>>) -> Seq<Fragment>
    decreases labels.len(),
{
    if labels.len() == 0 {
        Seq::empty()
    } else {
        pool.filter(|f: Fragment| f.kind == labels[0]) + grouped(pool, labels.drop_first())
    }
}

/// The pieces whose label is none of `labels`, in the order they have in
/// `pool`.
pub open spec fn unlisted(pool: Seq<Fragment>, labels: Seq<Seq<char>>) -> Seq<Fragment> {
    pool.filter(|f: Fragment| !labels.contains(f.kind))
}

/// No two pieces of `pool` share a label that is one of `labels`.
pub open spec fn listed_once(pool: Seq<Fragment>, labels: Seq<Seq<char>>) -> bool {
    forall|i: int, j: int|
        0 <= i < j < pool.len() && labels.contains(#[trigger] pool[i].kind) ==> pool[i].kind
            != (#[trigger] pool[j]).kind
}

/// Two tests that agree on every element keep the same elements.
proof fn lemma_filter_agree(s: Seq<Fragment>, p: spec_fn(Fragment) -> bool, q: spec_fn(Fragment) -> bool)
    requires
        forall|i: int| 0 <= i < s.len() ==> p(#[trigger] s[i]) == q(s[i]),
    ensures
        s.filter(p) == s.filter(q),
    decreases s.len(),
{
    reveal(Seq::filter);
    if s.len() > 0 {
        lemma_filter_agree(s.drop_last(), p, q);
    }
}

/// A test that every element fails keeps nothing.
proof fn lemma_filter_none(s: Seq<Fragment>, p: spec_fn(Fragment) -> bool)
    requires
        forall|i: int| 0 <= i < s.len() ==> !p(#[trigger] s[i]),
    ensures
        s.filter(p) == Seq::<Fragment>::empty(),
    decreases s.len(),
{
    reveal(Seq::filter);
    if s.len() > 0 {
        lemma_filter_none(s.drop_last(), p);
    }
}

/// A test that every element passes keeps everything.
proof fn lemma_filter_all(s: Seq<Fragment>, p: spec_fn(Fragment) -> bool)
    requires
        forall|i: int| 0 <= i < s.len() ==> p(#[trigger] s[i]),
    ensures
        s.filter(p) == s,
    decreases s.len(),
{
    reveal(Seq::filter);
    if s.len() > 0 {
        lemma_filter_all(s.drop_last(), p);
        assert(s.drop_last().push(s.last()) =~= s);
    }
}

/// Taking out an element that fails a test does not change what the test
/// keeps.
proof fn lemma_filter_remove(s: Seq<Fragment>, at: int, p: spec_fn(Fragment) -> bool)
    requires
        0 <= at < s.len(),
        !p(s[at]),
    ensures
        s.remove(at).filter(p) == s.filter(p),
{
    let head = s.subrange(0, at);
    let tail = s.subrange(at + 1, s.len() as int);
    let one = seq![s[at]];
    assert(s =~= head + one + tail);
    Seq::filter_distributes_over_add(head, tail, p);
    Seq::filter_distributes_over_add(head + one, tail, p);
    Seq::filter_distributes_over_add(head, one, p);
    lemma_filter_none(one, p);
    assert(head.filter(p) + Seq::<Fragment>::empty() =~= head.filter(p));
}

/// Taking out a piece whose label is none of `labels` does not change the
/// groups of those labels.
proof fn lemma_grouped_remove(pool: Seq<Fragment>, at: int, labels: Seq<Seq<char>>)
    requires
        0 <= at < pool.len(),
        !labels.contains(pool[at].kind),
    ensures
        grouped(pool.remove(at), labels) == grouped(pool, labels),
    decreases labels.len(),
{
    if labels.len() > 0 {
        let rest = labels.drop_first();
        assert(labels.contains(labels[0]));
        assert forall|l: Seq<char>| rest.contains(l) implies labels.contains(l) by {
            let i = choose|i: int| 0 <= i < rest.len() && rest[i] == l;
            assert(labels[i + 1] == l);
        }
        lemma_filter_remove(pool, at, |f: Fragment| f.kind == labels[0]);
        lemma_grouped_remove(pool, at, rest);
    }
}

/// What the labels after the first hold, against what all of them hold.
proof fn lemma_rest_labels(labels: Seq<Seq<char>>)
    requires
        labels.len() > 0,
        labels.no_duplicates(),
    ensures
        labels.contains(labels[0]),
        labels.drop_first().no_duplicates(),
        forall|l: Seq<char>|
            labels.contains(l) <==> (l == labels[0] || #[trigger] labels.drop_first().contains(l)),
        !labels.drop_first().contains(labels[0]),
{
    let rest = labels.drop_first();
    assert forall|l: Seq<char>| #[trigger] rest.contains(l) implies labels.contains(l) && l
        != labels[0] by {
        let i = choose|i: int| 0 <= i < rest.len() && rest[i] == l;
        assert(labels[i + 1] == l);
    }
    assert forall|l: Seq<char>| labels.contains(l) && l != labels[0] implies rest.contains(l) by {
        let i = choose|i: int| 0 <= i < labels.len() && labels[i] == l;
        assert(rest[i - 1] == l);
    }
}

/// Taking a piece out leaves no two pieces that share a listed label.
proof fn lemma_listed_once_remove(
    pool: Seq<Fragment>,
    at: int,
    labels: Seq<Seq<char>>,
    rest: Seq<Seq<char>>,
)
    requires
        0 <= at < pool.len(),
        listed_once(pool, labels),
        forall|l: Seq<char>| rest.contains(l) ==> labels.contains(l),
    ensures
        listed_once(pool.remove(at), rest),
{
    let left = pool.remove(at);
    assert forall|i: int, j: int|
        0 <= i < j < left.len() && rest.contains(#[trigger] left[i].kind) implies left[i].kind != (
    #[trigger] left[j]).kind by {
        let pi = if i < at { i } else { i + 1 };
        let pj = if j < at { j } else { j + 1 };
        assert(left[i] == pool[pi] && left[j] == pool[pj]);
        assert(labels.contains(pool[pi].kind));
    }
}

/// Where the first piece labelled `label` is the only one, it is the whole
/// group of that label.
proof fn lemma_group_of_one(pool: Seq<Fragment>, label: Seq<char>)
    requires
        first_labelled(pool, label, 0) < pool.len(),
        forall|j: int|
            first_labelled(pool, label, 0) < j < pool.len() ==> (#[trigger] pool[j]).kind != label,
    ensures
        pool.filter(|f: Fragment| f.kind == label) == seq![pool[first_labelled(pool, label, 0)]],
{
    let at = first_labelled(pool, label, 0);
    let marked = |f: Fragment| f.kind == label;
    lemma_first_labelled(pool, label, 0);
    let head = pool.subrange(0, at);
    let tail = pool.subrange(at + 1, pool.len() as int);
    let one = seq![pool[at]];
    assert(pool =~= head + one + tail);
    assert forall|i: int| 0 <= i < tail.len() implies !marked(#[trigger] tail[i]) by {
        assert(tail[i] == pool[at + 1 + i]);
    }
    lemma_filter_none(head, marked);
    lemma_filter_none(tail, marked);
    lemma_filter_all(one, marked);
    Seq::filter_distributes_over_add(head + one, tail, marked);
    Seq::filter_distributes_over_add(head, one, marked);
    assert(pool.filter(marked) =~= one);
}

/// Where the piece at `at` is the only one labelled `label`, taking it out
/// and striking `label` from the labels leaves the unlisted pieces as they
/// were.
proof fn lemma_unlisted_remove(
    pool: Seq<Fragment>,
    at: int,
    labels: Seq<Seq<char>>,
    rest: Seq<Seq<char>>,
)
    requires
        0 <= at < pool.len(),
        labels.contains(pool[at].kind),
        forall|j: int| 0 <= j < pool.len() && j != at ==> (#[trigger] pool[j]).kind != pool[at].kind,
        forall|l: Seq<char>|
            labels.contains(l) <==> (l == pool[at].kind || #[trigger] rest.contains(l)),
    ensures
        unlisted(pool.remove(at), rest) == unlisted(pool, labels),
{
    let left = pool.remove(at);
    let off = |f: Fragment| !labels.contains(f.kind);
    let off_rest = |f: Fragment| !rest.contains(f.kind);
    assert forall|i: int| 0 <= i < left.len() implies off(#[trigger] left[i]) == off_rest(
        left[i],
    ) by {
        let pi = if i < at { i } else { i + 1 };
        assert(left[i] == pool[pi]);
        assert(pool[pi].kind != pool[at].kind);
    }
    lemma_filter_agree(left, off, off_rest);
    lemma_filter_remove(pool, at, off);
}

/// Where no piece is labelled `label`, striking `label` from the labels
/// leaves the unlisted pieces as they were, and the group of `label` is empty.
proof fn lemma_unlisted_absent(
    pool: Seq<Fragment>,
    label: Seq<char>,
    labels: Seq<Seq<char>>,
    rest: Seq<Seq<char>>,
)
    requires
        forall|j: int| 0 <= j < pool.len() ==> (#[trigger] pool[j]).kind != label,
        forall|l: Seq<char>| labels.contains(l) <==> (l == label || #[trigger] rest.contains(l)),
    ensures
        unlisted(pool, rest) == unlisted(pool, labels),
        pool.filter(|f: Fragment| f.kind == label) == Seq::<Fragment>::empty(),
{
    let off = |f: Fragment| !labels.contains(f.kind);
    let off_rest = |f: Fragment| !rest.contains(f.kind);
    lemma_filter_agree(pool, off, off_rest);
    lemma_filter_none(pool, |f: Fragment| f.kind == label);
}

/// Where no two pieces share one of the labels, and no label is listed
/// twice, the arranged pieces are the groups of the labels in the labels'
/// order, then the pieces with none of the labels in their own order.
pub proof fn arranged_by_labels(pool: Seq<Fragment>, labels: Seq<Seq<char>>)
    requires
        labels.no_duplicates(),
        listed_once(pool, labels),
    ensures
        arrange(pool, labels) == grouped(pool, labels) + unlisted(pool, labels),
    decreases labels.len(),
{
    if labels.len() == 0 {
        lemma_filter_all(pool, |f: Fragment| !labels.contains(f.kind));
        assert(Seq::<Fragment>::empty() + pool =~= pool);
    } else {
        let label = labels[0];
        let rest = labels.drop_first();
        let at = first_labelled(pool, label, 0);
        lemma_first_labelled(pool, label, 0);
        lemma_rest_labels(labels);
        if at < pool.len() {
            let left = pool.remove(at);
            lemma_listed_once_remove(pool, at, labels, rest);
            arranged_by_labels(left, rest);
            lemma_group_of_one(pool, label);
            lemma_grouped_remove(pool, at, rest);
            lemma_unlisted_remove(pool, at, labels, rest);
            assert(arrange(pool, labels) == seq![pool[at]] + arrange(left, rest));
            assert(seq![pool[at]] + (grouped(pool, rest) + unlisted(pool, labels)) =~= (seq![
                pool[at],
            ] + grouped(pool, rest)) + unlisted(pool, labels));
        } else {
            arranged_by_labels(pool, rest);
            lemma_unlisted_absent(pool, label, labels, rest);
            assert(Seq::<Fragment>::empty() + grouped(pool, rest) =~= grouped(pool, rest));
        }
    }
}

/// No canonical label is listed twice.
pub proof fn canonical_labels_differ()
    ensures
        canonical_order().no_duplicates(),
{
    reveal_strlit("function");
    reveal_strlit("description");
    reveal_strlit("since");
    reveal_strlit("category");
    reveal_strlit("parameters");
    reveal_strlit("returns");
    reveal_strlit("example");
    let order = canonical_order();
    assert(order[0].len() == 8 && order[0][0] == 'f');
    assert(order[1].len() == 11);
    assert(order[2].len() == 5);
    assert(order[3].len() == 8 && order[3][0] == 'c');
    assert(order[4].len() == 10);
    assert(order[5].len() == 7 && order[5][0] == 'r');
    assert(order[6].len() == 7 && order[6][0] == 'e');
}

/// The order of a document. Where no two pieces share a canonical label, the
/// pieces with canonical labels come first, in the canonical order of their
/// labels, and the pieces with other labels follow in the order in which
/// they were given.
pub proof fn document_order(pieces: Seq<Fragment>)
    requires
        listed_once(pieces, canonical_order()),
    ensures
        arrange(pieces, canonical_order()) == grouped(pieces, canonical_order()) + unlisted(
            pieces,
            canonical_order(),
        ),
{
    canonical_labels_differ();
    arranged_by_labels(pieces, canonical_order());
}

/// Arranging loses no piece and adds none: whatever the labels, each piece
/// is in the result as often as it was given.
pub proof fn arrange_keeps_pieces(pool: Seq<Fragment>, labels: Seq<Seq<char>>)
    ensures
        arrange(pool, labels).to_multiset() == pool.to_multiset(),
        arrange(pool, labels).len() == pool.len(),
    decreases labels.len(),
{
    if labels.len() > 0 {
        let at = first_labelled(pool, labels[0], 0);
        let rest = labels.drop_first();
        lemma_first_labelled(pool, labels[0], 0);
        if at < pool.len() {
            let left = pool.remove(at);
            let tail = arrange(left, rest);
            arrange_keeps_pieces(left, rest);
            vstd::seq_lib::to_multiset_insert(tail, 0, pool[at]);
            vstd::seq_lib::to_multiset_insert(left, at, pool[at]);
            assert(tail.insert(0, pool[at]) =~= seq![pool[at]] + tail);
            assert(left.insert(at, pool[at]) =~= pool);
        } else {
            arrange_keeps_pieces(pool, rest);
        }
    }
}

} // verus!
