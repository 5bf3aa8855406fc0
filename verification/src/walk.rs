//! The order in which a directory tree is searched, and which entries are
//! left out.
//!
//! The program lists directories; the walk decides what is handed out next.
//! It keeps the entries still to consider as one queue: listing a directory
//! puts its entries at the front, so that a directory's contents come right
//! after the directory itself, before its later siblings.

use vstd::prelude::*;

verus! {

/// One entry of a directory listing. `item` is whatever the program uses to
/// find the entry again (its path); `name` is its file name as raw bytes,
/// where it has one.
pub struct ListedEntry<T> {
    pub item: T,
    pub name: Option<Vec<u8>>,
    pub is_dir: bool,
}

/// Whether a file name marks a hidden entry: its first byte is a dot. A path
/// without a file name is not hidden.
pub open spec fn hidden_name(name: Option<Seq<u8>>) -> bool {
    match name {
        Some(n) => n.len() > 0 && n[0] == 0x2Eu8,
        None => false,
    }
}

/// The name of an entry as bytes.
pub open spec fn name_view<T>(e: ListedEntry<T>) -> Option<Seq<u8>> {
    match e.name {
        Some(n) => Some(n@),
        None => None,
    }
}

/// Whether an entry is handed out: hidden ones only with `--hidden`.
pub open spec fn is_listed<T>(e: ListedEntry<T>, include_hidden: bool) -> bool {
    include_hidden || !hidden_name(name_view(e))
}

/// Whether a file name, as raw bytes, marks a hidden entry: its first byte
/// is a dot. A path without a file name is not hidden.
pub fn is_hidden(file_name: Option<&[u8]>) -> (r: bool)
    ensures
        r == hidden_name(match file_name {
            Some(n) => Some(n@),
            None => None,
        }),
{
    match file_name {
        Some(n) => n.len() > 0 && n[0] == 0x2Eu8,
        None => false,
    }
}

/// Whether the entry named `name` is handed out.
pub fn is_visible(name: &Option<Vec<u8>>, include_hidden: bool) -> (r: bool)
    ensures
        r == (include_hidden || !hidden_name(match name {
            Some(n) => Some(n@),
            None => None,
        })),
{
    if include_hidden {
        return true;
    }
    match name {
        Some(n) => !is_hidden(Some(n.as_slice())),
        None => !is_hidden(None),
    }
}

/// The queue once the entries that are not handed out have been dropped
/// from its front.
pub open spec fn skip_unlisted<T>(queue: Seq<ListedEntry<T>>, include_hidden: bool) -> Seq<ListedEntry<T>>
    decreases queue.len(),
{
    if queue.len() > 0 && !is_listed(queue[0], include_hidden) {
        skip_unlisted(queue.drop_first(), include_hidden)
    } else {
        queue
    }
}

/// The queue that a stack stands for: its top comes first.
pub open spec fn stack_queue<T>(stack: Seq<ListedEntry<T>>) -> Seq<ListedEntry<T>> {
    Seq::new(stack.len(), |i: int| stack[stack.len() - 1 - i])
}

/// What the program does next in a search.
pub enum WalkStep<T> {
    /// Report this entry.
    Report(T),
    /// Report this directory, list it and hand the listing to `descend`.
    Descend(T),
    /// The search is over.
    Done,
}

/// What a walk stands for.
pub struct WalkView<T> {
    pub include_hidden: bool,
    /// The entries still to consider, in the order they will be considered.
    pub queue: Seq<ListedEntry<T>>,
}

/// A search of a directory tree in progress.
pub struct Walk<T> {
    include_hidden: bool,
    stack: Vec<ListedEntry<T>>,
}

impl<T> View for Walk<T> {
    type V = WalkView<T>;

    closed spec fn view(&self) -> WalkView<T> {
        WalkView { include_hidden: self.include_hidden, queue: stack_queue(self.stack@) }
    }
}

impl<T> Walk<T> {
    /// Starts a search with the listing of the search directory.
    pub fn new(include_hidden: bool, listing: Vec<ListedEntry<T>>) -> (r: Walk<T>)
        ensures
            r@.include_hidden == include_hidden,
            r@.queue == listing@,
    {
        let mut w = Walk { include_hidden, stack: Vec::new() };
        w.descend(listing);
        w
    }

    /// Puts the listing of the directory just handed out in front of the
    /// entries still to consider.
    pub fn descend(&mut self, listing: Vec<ListedEntry<T>>)
        ensures
            final(self)@.include_hidden == old(self)@.include_hidden,
            final(self)@.queue == listing@ + old(self)@.queue,
    {
        let mut listing = listing;
        let ghost all = listing@;
        let ghost queue0 = self@.queue;
        while listing.len() > 0
            invariant
                self.include_hidden == old(self).include_hidden,
                listing@.len() <= all.len(),
                listing@ == all.take(listing@.len() as int),
                stack_queue(self.stack@) == all.skip(listing@.len() as int) + queue0,
            decreases listing.len(),
        {
            let e = listing.pop().unwrap();
            let ghost before = self.stack@;
            self.stack.push(e);
            proof {
                let k = listing@.len() as int;
                assert(listing@ =~= all.take(k));
                assert(stack_queue(self.stack@) =~= all.skip(k) + queue0) by {
                    assert(all.skip(k) =~= seq![all[k]] + all.skip(k + 1));
                    assert(stack_queue(self.stack@) =~= seq![e] + stack_queue(before));
                }
            }
        }
        proof {
            assert(all.skip(0) =~= all);
        }
    }

    /// Takes the next entry to report off the queue, dropping the hidden ones
    /// before it; `None` once nothing is left.
    fn next_entry(&mut self) -> (r: Option<ListedEntry<T>>)
        ensures
            final(self)@.include_hidden == old(self)@.include_hidden,
            ({
                let rest = skip_unlisted(old(self)@.queue, old(self)@.include_hidden);
                match r {
                    Some(e) => rest.len() > 0 && e == rest[0] && final(self)@.queue == rest.drop_first(),
                    None => rest.len() == 0 && final(self)@.queue.len() == 0,
                }
            }),
            r matches Some(e) ==> is_listed(e, old(self)@.include_hidden),
    {
        let ghost target = skip_unlisted(self@.queue, self.include_hidden);
        loop
            invariant
                self.include_hidden == old(self).include_hidden,
                skip_unlisted(stack_queue(self.stack@), self.include_hidden) == target,
                target == skip_unlisted(old(self)@.queue, old(self)@.include_hidden),
            decreases self.stack.len(),
        {
            let ghost before = self.stack@;
            match self.stack.pop() {
                None => {
                    proof {
                        assert(stack_queue(self.stack@) =~= Seq::<ListedEntry<T>>::empty());
                        assert(skip_unlisted(stack_queue(self.stack@), self.include_hidden)
                            == stack_queue(self.stack@));
                    }
                    return None;
                },
                Some(e) => {
                    proof {
                        assert(stack_queue(before) =~= seq![e] + stack_queue(self.stack@));
                        assert(stack_queue(before)[0] == e);
                        assert(stack_queue(before).drop_first() =~= stack_queue(self.stack@));
                    }
                    let shown = is_visible(&e.name, self.include_hidden);
                    assert(shown == is_listed(e, self.include_hidden));
                    assert(skip_unlisted(stack_queue(before), self.include_hidden) == if shown {
                        stack_queue(before)
                    } else {
                        skip_unlisted(stack_queue(self.stack@), self.include_hidden)
                    });
                    if shown {
                        return Some(e);
                    }
                }
            }
        }
    }

    /// The next step of the search: the next entry that is not hidden (or
    /// any, with `--hidden`) is reported, and a directory is also to be
    /// listed; `Done` once nothing is left.
    pub fn next_step(&mut self) -> (r: WalkStep<T>)
        ensures
            final(self)@.include_hidden == old(self)@.include_hidden,
            ({
                let rest = skip_unlisted(old(self)@.queue, old(self)@.include_hidden);
                match r {
                    WalkStep::Report(x) => rest.len() > 0 && !rest[0].is_dir && x == rest[0].item
                        && final(self)@.queue == rest.drop_first(),
                    WalkStep::Descend(x) => rest.len() > 0 && rest[0].is_dir && x == rest[0].item
                        && final(self)@.queue == rest.drop_first(),
                    WalkStep::Done => rest.len() == 0 && final(self)@.queue.len() == 0,
                }
            }),
            ({
                let rest = skip_unlisted(old(self)@.queue, old(self)@.include_hidden);
                rest.len() > 0 ==> is_listed(rest[0], old(self)@.include_hidden)
            }),
    {
        match self.next_entry() {
            Some(e) => {
                if e.is_dir {
                    WalkStep::Descend(e.item)
                } else {
                    WalkStep::Report(e.item)
                }
            },
            None => WalkStep::Done,
        }
    }
}

/// Only entries that are not handed out are skipped: what is skipped is the
/// leading run of such entries, and the next entry handed out, if any, is
/// the first one that is listed.
pub proof fn only_unlisted_entries_are_skipped<T>(queue: Seq<ListedEntry<T>>, include_hidden: bool)
    ensures
        ({
            let rest = skip_unlisted(queue, include_hidden);
            let d = queue.len() - rest.len();
            &&& 0 <= d <= queue.len()
            &&& rest == queue.skip(d)
            &&& forall|i: int| 0 <= i < d ==> !is_listed(#[trigger] queue[i], include_hidden)
            &&& rest.len() > 0 ==> is_listed(rest[0], include_hidden)
        }),
    decreases queue.len(),
{
    if queue.len() > 0 && !is_listed(queue[0], include_hidden) {
        let tail = queue.drop_first();
        only_unlisted_entries_are_skipped(tail, include_hidden);
        let rest = skip_unlisted(tail, include_hidden);
        let d = tail.len() - rest.len();
        assert(queue.skip(d + 1) =~= tail.skip(d));
        assert forall|i: int| 0 <= i < d + 1 implies !is_listed(#[trigger] queue[i], include_hidden) by {
            if i > 0 {
                assert(queue[i] == tail[i - 1]);
            }
        }
    } else {
        assert(queue.skip(0) =~= queue);
    }
}

/// With `--hidden` nothing is skipped; without it, every entry whose name
/// starts with a dot byte is, whether or not the name is valid text.
pub proof fn hidden_entries_skipped_unless_asked<T>(e: ListedEntry<T>, include_hidden: bool)
    ensures
        is_listed(e, include_hidden) <==> include_hidden || !(e.name matches Some(n) && n@.len() > 0
            && n@[0] == 0x2Eu8),
{
}

/// When a directory just handed out is listed, its entries come before all
/// that was still to come: a directory's contents are reported right after
/// it, before its later siblings.
pub proof fn contents_follow_their_directory<T>(
    queue: Seq<ListedEntry<T>>,
    listing: Seq<ListedEntry<T>>,
    include_hidden: bool,
)
    requires
        skip_unlisted(queue, include_hidden).len() > 0,
    ensures
        ({
            let rest = skip_unlisted(queue, include_hidden);
            let after = listing + rest.drop_first();
            &&& after.take(listing.len() as int) == listing
            &&& after.skip(listing.len() as int) == rest.drop_first()
        }),
{
    let rest = skip_unlisted(queue, include_hidden);
    assert((listing + rest.drop_first()).take(listing.len() as int) =~= listing);
    assert((listing + rest.drop_first()).skip(listing.len() as int) =~= rest.drop_first());
}

/// A directory tree as a search meets it: an entry and, for a directory, the
/// trees of the entries of its listing.
pub struct Tree<T> {
    pub entry: ListedEntry<T>,
    pub children: Seq<Tree<T>>,
}

/// The entries at the top of a forest, in order.
pub open spec fn roots<T>(forest: Seq<Tree<T>>) -> Seq<ListedEntry<T>> {
    forest.map_values(|t: Tree<T>| t.entry)
}

/// Whether a forest is what `listing` (the listing of each directory) shows:
/// each directory's children are its listing, and nothing else has children.
pub open spec fn agrees_with<T>(forest: Seq<Tree<T>>, listing: spec_fn(T) -> Seq<ListedEntry<T>>) -> bool
    decreases forest,
{
    if forest.len() == 0 {
        true
    } else {
        let t = forest[0];
        &&& if t.entry.is_dir {
            listing(t.entry.item) == roots(t.children)
        } else {
            t.children.len() == 0
        }
        &&& agrees_with(t.children, listing)
        &&& agrees_with(forest.drop_first(), listing)
    }
}

/// The number of entries in a forest.
pub open spec fn forest_size<T>(forest: Seq<Tree<T>>) -> nat
    decreases forest,
{
    if forest.len() == 0 {
        0
    } else {
        1 + forest_size(forest[0].children) + forest_size(forest.drop_first())
    }
}

/// The entries of a forest in pre-order, leaving out hidden entries and all
/// that lies below them unless they are included: each entry comes before
/// its contents, and its contents come before its later siblings.
pub open spec fn preorder<T>(forest: Seq<Tree<T>>, include_hidden: bool) -> Seq<T>
    decreases forest,
{
    if forest.len() == 0 {
        seq![]
    } else {
        let t = forest[0];
        (if is_listed(t.entry, include_hidden) {
            seq![t.entry.item] + preorder(t.children, include_hidden)
        } else {
            seq![]
        }) + preorder(forest.drop_first(), include_hidden)
    }
}

/// The queue of a walk after one step of a search: the next entry is handed
/// out (`next_step`) and, if it is a directory, its listing is put in front
/// (`descend`).
pub open spec fn queue_after_step<T>(
    queue: Seq<ListedEntry<T>>,
    listing: spec_fn(T) -> Seq<ListedEntry<T>>,
    include_hidden: bool,
) -> Seq<ListedEntry<T>> {
    let rest = skip_unlisted(queue, include_hidden);
    (if rest[0].is_dir {
        listing(rest[0].item)
    } else {
        seq![]
    }) + rest.drop_first()
}

/// What a search hands out in at most `steps` steps from `queue`: it stops
/// when `next_step` has nothing left.
pub open spec fn walk_reports<T>(
    queue: Seq<ListedEntry<T>>,
    listing: spec_fn(T) -> Seq<ListedEntry<T>>,
    include_hidden: bool,
    steps: nat,
) -> Seq<T>
    decreases steps,
{
    let rest = skip_unlisted(queue, include_hidden);
    if steps == 0 || rest.len() == 0 {
        seq![]
    } else {
        seq![rest[0].item] + walk_reports(
            queue_after_step(queue, listing, include_hidden),
            listing,
            include_hidden,
            (steps - 1) as nat,
        )
    }
}

proof fn lemma_roots_concat<T>(a: Seq<Tree<T>>, b: Seq<Tree<T>>)
    ensures
        roots(a + b) == roots(a) + roots(b),
{
    assert(roots(a + b) =~= roots(a) + roots(b));
}

proof fn lemma_forest_concat<T>(
    a: Seq<Tree<T>>,
    b: Seq<Tree<T>>,
    listing: spec_fn(T) -> Seq<ListedEntry<T>>,
    include_hidden: bool,
)
    ensures
        preorder(a + b, include_hidden) == preorder(a, include_hidden) + preorder(b, include_hidden),
        forest_size(a + b) == forest_size(a) + forest_size(b),
        agrees_with(a, listing) && agrees_with(b, listing) ==> agrees_with(a + b, listing),
    decreases a.len(),
{
    if a.len() == 0 {
        assert(a + b =~= b);
        assert(preorder(a, include_hidden) =~= Seq::<T>::empty());
    } else {
        lemma_forest_concat(a.drop_first(), b, listing, include_hidden);
        assert((a + b)[0] == a[0]);
        assert((a + b).drop_first() =~= a.drop_first() + b);
        let head = if is_listed(a[0].entry, include_hidden) {
            seq![a[0].entry.item] + preorder(a[0].children, include_hidden)
        } else {
            seq![]
        };
        assert(head + (preorder(a.drop_first(), include_hidden) + preorder(b, include_hidden))
            =~= (head + preorder(a.drop_first(), include_hidden)) + preorder(b, include_hidden));
    }
}

/// A search of a finite directory tree that descends into each directory it
/// hands out, with that directory's listing, hands out exactly the tree's
/// entries in pre-order, hidden ones and all below them left out unless
/// asked for; and it is over within as many steps as the tree has entries
/// (more steps hand out nothing more).
pub proof fn walk_hands_out_preorder<T>(
    forest: Seq<Tree<T>>,
    listing: spec_fn(T) -> Seq<ListedEntry<T>>,
    include_hidden: bool,
    steps: nat,
)
    requires
        agrees_with(forest, listing),
        steps >= forest_size(forest),
    ensures
        walk_reports(roots(forest), listing, include_hidden, steps) == preorder(forest, include_hidden),
    decreases forest_size(forest),
{
    let q = roots(forest);
    if forest.len() == 0 {
        assert(skip_unlisted(q, include_hidden) == q);
    } else {
        let t = forest[0];
        let tail = forest.drop_first();
        assert(q[0] == t.entry);
        assert(q.drop_first() =~= roots(tail));
        if !is_listed(t.entry, include_hidden) {
            assert(skip_unlisted(q, include_hidden) == skip_unlisted(roots(tail), include_hidden));
            walk_hands_out_preorder(tail, listing, include_hidden, steps);
            let rest = skip_unlisted(q, include_hidden);
            if steps > 0 && rest.len() > 0 {
                assert(queue_after_step(q, listing, include_hidden) == queue_after_step(
                    roots(tail),
                    listing,
                    include_hidden,
                ));
            }
            assert(preorder(forest, include_hidden) =~= preorder(tail, include_hidden));
        } else {
            assert(skip_unlisted(q, include_hidden) == q);
            let next = t.children + tail;
            lemma_roots_concat(t.children, tail);
            lemma_forest_concat(t.children, tail, listing, include_hidden);
            if t.entry.is_dir {
                assert(queue_after_step(q, listing, include_hidden) =~= roots(next));
            } else {
                assert(roots(t.children) =~= Seq::<ListedEntry<T>>::empty());
                assert(queue_after_step(q, listing, include_hidden) =~= roots(next));
            }
            walk_hands_out_preorder(next, listing, include_hidden, (steps - 1) as nat);
            assert(walk_reports(q, listing, include_hidden, steps) =~= seq![t.entry.item]
                + preorder(next, include_hidden));
            assert(preorder(forest, include_hidden) =~= seq![t.entry.item] + preorder(
                t.children,
                include_hidden,
            ) + preorder(tail, include_hidden));
        }
    }
}

/// Whether the search reaches `t` in a forest: `t` is a tree of the forest,
/// not hidden (unless asked for), below entries that are not hidden either.
pub open spec fn reached<T>(forest: Seq<Tree<T>>, t: Tree<T>, include_hidden: bool) -> bool
    decreases forest,
{
    if forest.len() == 0 {
        false
    } else {
        ||| forest[0] == t && is_listed(t.entry, include_hidden)
        ||| is_listed(forest[0].entry, include_hidden) && reached(forest[0].children, t, include_hidden)
        ||| reached(forest.drop_first(), t, include_hidden)
    }
}

/// What a search reports for a tree it reaches: the entry, then everything
/// below it.
pub open spec fn block<T>(t: Tree<T>, include_hidden: bool) -> Seq<T> {
    seq![t.entry.item] + preorder(t.children, include_hidden)
}

/// At every depth, an entry the search reaches is reported together with
/// everything below it as one block: the entry first, its contents right
/// after it, and nothing else in between.
pub proof fn contents_form_one_block<T>(forest: Seq<Tree<T>>, t: Tree<T>, include_hidden: bool)
    requires
        reached(forest, t, include_hidden),
    ensures
        exists|k: int|
            0 <= k && k + block(t, include_hidden).len() <= preorder(forest, include_hidden).len()
                && #[trigger] preorder(forest, include_hidden).subrange(
                k,
                k + block(t, include_hidden).len(),
            ) == block(t, include_hidden),
    decreases forest,
{
    let f0 = forest[0];
    let tail = forest.drop_first();
    let whole = preorder(forest, include_hidden);
    let b = block(t, include_hidden);
    let head = if is_listed(f0.entry, include_hidden) {
        seq![f0.entry.item] + preorder(f0.children, include_hidden)
    } else {
        seq![]
    };
    assert(whole == head + preorder(tail, include_hidden));
    if f0 == t && is_listed(t.entry, include_hidden) {
        assert(head == b);
        assert(whole.subrange(0, b.len() as int) =~= b);
        let k: int = 0;
        assert(k + b.len() <= whole.len());
        assert(preorder(forest, include_hidden).subrange(k, k + b.len()) == b);
    } else if is_listed(f0.entry, include_hidden) && reached(f0.children, t, include_hidden) {
        contents_form_one_block(f0.children, t, include_hidden);
        let inner = preorder(f0.children, include_hidden);
        let k = choose|k: int|
            0 <= k && k + b.len() <= inner.len() && #[trigger] inner.subrange(k, k + b.len()) == b;
        assert(whole =~= seq![f0.entry.item] + inner + preorder(tail, include_hidden));
        assert(whole.subrange(k + 1, k + 1 + b.len()) =~= inner.subrange(k, k + b.len()));
    } else {
        contents_form_one_block(tail, t, include_hidden);
        let rest = preorder(tail, include_hidden);
        let k = choose|k: int|
            0 <= k && k + b.len() <= rest.len() && #[trigger] rest.subrange(k, k + b.len()) == b;
        let n = head.len() as int;
        assert(whole.subrange(n + k, n + k + b.len()) =~= rest.subrange(k, k + b.len()));
    }
}

/// One step of a search as `queue_after_step` describes it is what
/// `next_step` followed by `descend` (after `Descend`) does to the queue.
pub proof fn step_is_next_step_then_descend<T>(
    queue: Seq<ListedEntry<T>>,
    listing: spec_fn(T) -> Seq<ListedEntry<T>>,
    include_hidden: bool,
)
    requires
        skip_unlisted(queue, include_hidden).len() > 0,
    ensures
        ({
            let rest = skip_unlisted(queue, include_hidden);
            queue_after_step(queue, listing, include_hidden) == if rest[0].is_dir {
                listing(rest[0].item) + rest.drop_first()
            } else {
                rest.drop_first()
            }
        }),
{
    let rest = skip_unlisted(queue, include_hidden);
    assert(Seq::<ListedEntry<T>>::empty() + rest.drop_first() =~= rest.drop_first());
}

} // verus!
