//! Key material: the content of an argument as a tree of machine words.

use vstd::prelude::*;

verus! {

/// The content of an argument, copied out of it.
#[derive(Debug)]
pub enum Content {
    /// A scalar, by its bit pattern.
    Word(u64),
    /// A sequence of contents, in order.
    Sequence(Vec<Content>),
}

/// The mathematical value of a `Content`.
pub ghost enum ContentView {
    Word(u64),
    Sequence(Seq<ContentView>),
}

/// The hash of nothing.
pub const HASH_SEED: u64 = 0xcbf2_9ce4_8422_2325;

/// The multiplier of one hashing step.
pub const HASH_PRIME: u64 = 0x0000_0100_0000_01b3;

/// One hashing step: the word `w` enters the hash `h`.
pub open spec fn mix(h: u64, w: u64) -> u64 {
    (h ^ w).wrapping_mul(HASH_PRIME)
}

/// The hash of the first `n` contents of a sequence: its length enters first,
/// then the hash of each content, in order.
pub open spec fn sequence_hash(items: Seq<ContentView>, n: int) -> u64
    decreases items, n,
{
    if n <= 0 || n > items.len() {
        mix(mix(HASH_SEED, 1), items.len() as u64)
    } else {
        mix(sequence_hash(items, n - 1), content_hash(items[n - 1]))
    }
}

/// The hash of a content. It is computed from the content alone.
pub open spec fn content_hash(c: ContentView) -> u64
    decreases c, 0int,
{
    match c {
        ContentView::Word(w) => mix(mix(HASH_SEED, 0), w),
        ContentView::Sequence(items) => sequence_hash(items, items.len() as int),
    }
}

/// The mathematical value of each content of a sequence, in order.
pub open spec fn views_of(items: Seq<Content>) -> Seq<ContentView>
    decreases items,
{
    Seq::new(
        items.len(),
        |i: int|
            if 0 <= i < items.len() {
                view_of(items[i])
            } else {
                ContentView::Word(0)
            },
    )
}

/// The mathematical value of a content.
pub open spec fn view_of(c: Content) -> ContentView
    decreases c,
{
    match c {
        Content::Word(w) => ContentView::Word(w),
        Content::Sequence(items) => ContentView::Sequence(views_of(items@)),
    }
}

impl View for Content {
    type V = ContentView;

    open spec fn view(&self) -> ContentView {
        view_of(*self)
    }
}

/// One hashing step.
pub fn mix_word(h: u64, w: u64) -> (out: u64)
    ensures
        out == mix(h, w),
{
    (h ^ w).wrapping_mul(HASH_PRIME)
}

impl Content {
    /// Whether two contents are equal, element by element.
    pub fn same(&self, other: &Content) -> (eq: bool)
        ensures
            eq == (self@ == other@),
        decreases self,
    {
        match self {
            Content::Word(a) => match other {
                Content::Word(b) => *a == *b,
                Content::Sequence(_) => false,
            },
            Content::Sequence(a) => match other {
                Content::Word(_) => false,
                Content::Sequence(b) => {
                    if a.len() != b.len() {
                        assert(self@->Sequence_0.len() != other@->Sequence_0.len());
                        return false;
                    }
                    let mut i: usize = 0;
                    while i < a.len()
                        invariant
                            i <= a.len(),
                            a.len() == b.len(),
                            self == Content::Sequence(*a),
                            other == Content::Sequence(*b),
                            forall|j: int| 0 <= j < i ==> a@[j]@ == b@[j]@,
                        decreases a.len() - i,
                    {
                        if !a[i].same(&b[i]) {
                            assert(self@->Sequence_0[i as int] == a@[i as int]@);
                            assert(other@->Sequence_0[i as int] == b@[i as int]@);
                            return false;
                        }
                        i += 1;
                    }
                    assert(self@->Sequence_0 =~= other@->Sequence_0);
                    true
                },
            },
        }
    }

    /// The hash of this content.
    pub fn digest(&self) -> (h: u64)
        ensures
            h == content_hash(self@),
        decreases self,
    {
        match self {
            Content::Word(w) => mix_word(mix_word(HASH_SEED, 0), *w),
            Content::Sequence(items) => {
                let n: usize = items.len();
                let mut h: u64 = mix_word(mix_word(HASH_SEED, 1), n as u64);
                let mut i: usize = 0;
                while i < n
                    invariant
                        i <= n,
                        n == items@.len(),
                        self == Content::Sequence(*items),
                        h == sequence_hash(views_of(items@), i as int),
                    decreases n - i,
                {
                    assert(decreases_to!(*self => self->Sequence_0));
                    let item_hash = items[i].digest();
                    h = mix_word(h, item_hash);
                    i += 1;
                }
                h
            },
        }
    }
}

impl Clone for Content {
    /// A deep copy.
    fn clone(&self) -> (copy: Content)
        ensures
            copy@ == self@,
        decreases self,
    {
        match self {
            Content::Word(w) => Content::Word(*w),
            Content::Sequence(items) => {
                let mut copies: Vec<Content> = Vec::new();
                let mut i: usize = 0;
                while i < items.len()
                    invariant
                        i <= items.len(),
                        self == Content::Sequence(*items),
                        copies@.len() == i,
                        forall|j: int| 0 <= j < i ==> copies@[j]@ == items@[j]@,
                    decreases items.len() - i,
                {
                    assert(decreases_to!(*self => self->Sequence_0));
                    let item = items[i].clone();
                    copies.push(item);
                    i += 1;
                }
                assert(views_of(copies@) =~= views_of(items@));
                Content::Sequence(copies)
            },
        }
    }
}

} // verus!
