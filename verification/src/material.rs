//! Key material of common types: how a value is turned into the content that
//! stands for it in a key.

use vstd::prelude::*;
use vstd::string::*;
use crate::content::{Content, ContentView, views_of};
use crate::key::{Argument, ArgumentView};

verus! {

/// A type whose values can enter a cache key.
pub trait KeyMaterial {
    /// The content that stands for the value.
    spec fn key_content(&self) -> ContentView;

    /// Copies the value into the content that stands for it.
    fn to_content(&self) -> (content: Content)
        ensures
            content@ == self.key_content(),
    ;
}

impl KeyMaterial for u64 {
    open spec fn key_content(&self) -> ContentView {
        ContentView::Word(*self)
    }

    fn to_content(&self) -> (content: Content) {
        Content::Word(*self)
    }
}

impl KeyMaterial for u32 {
    open spec fn key_content(&self) -> ContentView {
        ContentView::Word(*self as u64)
    }

    fn to_content(&self) -> (content: Content) {
        Content::Word(*self as u64)
    }
}

impl KeyMaterial for u16 {
    open spec fn key_content(&self) -> ContentView {
        ContentView::Word(*self as u64)
    }

    fn to_content(&self) -> (content: Content) {
        Content::Word(*self as u64)
    }
}

impl KeyMaterial for u8 {
    open spec fn key_content(&self) -> ContentView {
        ContentView::Word(*self as u64)
    }

    fn to_content(&self) -> (content: Content) {
        Content::Word(*self as u64)
    }
}

impl KeyMaterial for usize {
    open spec fn key_content(&self) -> ContentView {
        ContentView::Word(*self as u64)
    }

    fn to_content(&self) -> (content: Content) {
        Content::Word(*self as u64)
    }
}

impl KeyMaterial for i64 {
    /// A signed number stands by its two's complement bit pattern.
    open spec fn key_content(&self) -> ContentView {
        ContentView::Word(*self as u64)
    }

    fn to_content(&self) -> (content: Content) {
        Content::Word(#[verifier::truncate] (*self as u64))
    }
}

impl KeyMaterial for i32 {
    /// A signed number stands by its two's complement bit pattern, sign-extended.
    open spec fn key_content(&self) -> ContentView {
        ContentView::Word(*self as i64 as u64)
    }

    fn to_content(&self) -> (content: Content) {
        Content::Word(#[verifier::truncate] (*self as i64 as u64))
    }
}

impl KeyMaterial for i16 {
    /// A signed number stands by its two's complement bit pattern, sign-extended.
    open spec fn key_content(&self) -> ContentView {
        ContentView::Word(*self as i64 as u64)
    }

    fn to_content(&self) -> (content: Content) {
        Content::Word(#[verifier::truncate] (*self as i64 as u64))
    }
}

impl KeyMaterial for i8 {
    /// A signed number stands by its two's complement bit pattern, sign-extended.
    open spec fn key_content(&self) -> ContentView {
        ContentView::Word(*self as i64 as u64)
    }

    fn to_content(&self) -> (content: Content) {
        Content::Word(#[verifier::truncate] (*self as i64 as u64))
    }
}

impl KeyMaterial for isize {
    /// A signed number stands by its two's complement bit pattern, sign-extended.
    open spec fn key_content(&self) -> ContentView {
        ContentView::Word(*self as i64 as u64)
    }

    fn to_content(&self) -> (content: Content) {
        Content::Word(#[verifier::truncate] (*self as i64 as u64))
    }
}

impl KeyMaterial for bool {
    open spec fn key_content(&self) -> ContentView {
        ContentView::Word(if *self { 1 } else { 0 })
    }

    fn to_content(&self) -> (content: Content) {
        if *self {
            Content::Word(1)
        } else {
            Content::Word(0)
        }
    }
}

impl KeyMaterial for char {
    /// A character stands by its code point.
    open spec fn key_content(&self) -> ContentView {
        ContentView::Word(*self as u32 as u64)
    }

    fn to_content(&self) -> (content: Content) {
        let c: char = *self;
        Content::Word(c as u32 as u64)
    }
}

/// The content of each value of a sequence, in order.
pub open spec fn contents_of<T: KeyMaterial>(items: Seq<T>) -> Seq<ContentView> {
    Seq::new(items.len(), |i: int| items[i].key_content())
}

impl<T: KeyMaterial> KeyMaterial for Vec<T> {
    /// A sequence stands by the contents of its elements, in order.
    open spec fn key_content(&self) -> ContentView {
        ContentView::Sequence(contents_of(self@))
    }

    fn to_content(&self) -> (content: Content) {
        let mut items: Vec<Content> = Vec::new();
        let mut i: usize = 0;
        while i < self.len()
            invariant
                i <= self.len(),
                items@.len() == i,
                forall|j: int| 0 <= j < i ==> items@[j]@ == self@[j].key_content(),
            decreases self.len() - i,
        {
            items.push(self[i].to_content());
            i += 1;
        }
        assert(views_of(items@) =~= contents_of(self@));
        Content::Sequence(items)
    }
}

impl<T: KeyMaterial> KeyMaterial for Option<T> {
    /// An optional value stands as a sequence of at most one content.
    open spec fn key_content(&self) -> ContentView {
        match self {
            Some(value) => ContentView::Sequence(seq![value.key_content()]),
            None => ContentView::Sequence(Seq::empty()),
        }
    }

    fn to_content(&self) -> (content: Content) {
        let mut items: Vec<Content> = Vec::new();
        match self {
            Some(value) => {
                items.push(value.to_content());
                assert(views_of(items@) =~= seq![value.key_content()]);
            },
            None => {
                assert(views_of(items@) =~= Seq::<ContentView>::empty());
            },
        }
        Content::Sequence(items)
    }
}

impl<A: KeyMaterial, B: KeyMaterial> KeyMaterial for (A, B) {
    /// A pair stands as the sequence of its two contents.
    open spec fn key_content(&self) -> ContentView {
        ContentView::Sequence(seq![self.0.key_content(), self.1.key_content()])
    }

    fn to_content(&self) -> (content: Content) {
        let mut items: Vec<Content> = Vec::new();
        items.push(self.0.to_content());
        items.push(self.1.to_content());
        assert(views_of(items@) =~= seq![self.0.key_content(), self.1.key_content()]);
        Content::Sequence(items)
    }
}

/// The code points of a text, each as a word.
pub open spec fn code_points(text: Seq<char>) -> Seq<ContentView> {
    Seq::new(text.len(), |i: int| ContentView::Word(text[i] as u32 as u64))
}

impl KeyMaterial for String {
    /// A text stands by its code points, in order.
    open spec fn key_content(&self) -> ContentView {
        ContentView::Sequence(code_points(self@))
    }

    fn to_content(&self) -> (content: Content) {
        let text = self.as_str();
        let n: usize = text.unicode_len();
        let mut items: Vec<Content> = Vec::new();
        let mut i: usize = 0;
        while i < n
            invariant
                i <= n,
                n == text@.len(),
                items@.len() == i,
                forall|j: int|
                    0 <= j < i ==> items@[j]@ == ContentView::Word(text@[j] as u32 as u64),
            decreases n - i,
        {
            let c = text.get_char(i);
            items.push(Content::Word(c as u32 as u64));
            i += 1;
        }
        assert(views_of(items@) =~= code_points(self@));
        Content::Sequence(items)
    }
}

impl Argument {
    /// An argument passed by value.
    pub fn by_value<T: KeyMaterial>(value: &T) -> (arg: Argument)
        ensures
            arg@ == (ArgumentView { address: 0, length: 0, content: value.key_content() }),
    {
        Argument { address: 0, length: 0, content: value.to_content() }
    }

    /// A reference to a value that lies at `address`.
    pub fn by_reference<T: KeyMaterial>(address: usize, referent: &T) -> (arg: Argument)
        ensures
            arg@ == (ArgumentView { address, length: 0, content: referent.key_content() }),
    {
        Argument { address, length: 0, content: referent.to_content() }
    }

    /// A reference to a slice or an array whose first element lies at `address`.
    pub fn by_slice<T: KeyMaterial>(address: usize, elements: &[T]) -> (arg: Argument)
        ensures
            arg@ == (ArgumentView {
                address,
                length: elements@.len() as usize,
                content: ContentView::Sequence(contents_of(elements@)),
            }),
    {
        let mut items: Vec<Content> = Vec::new();
        let mut i: usize = 0;
        while i < elements.len()
            invariant
                i <= elements.len(),
                items@.len() == i,
                forall|j: int| 0 <= j < i ==> items@[j]@ == elements@[j].key_content(),
            decreases elements.len() - i,
        {
            items.push(elements[i].to_content());
            i += 1;
        }
        assert(views_of(items@) =~= contents_of(elements@));
        Argument { address, length: elements.len(), content: Content::Sequence(items) }
    }

    /// A reference keyed by pointer: the address, and the length of a slice or an
    /// array. The content is not read under that key mode, and none is copied.
    pub fn by_pointer(address: usize, length: usize) -> (arg: Argument)
        ensures
            arg@ == (ArgumentView {
                address,
                length,
                content: ContentView::Sequence(Seq::empty()),
            }),
    {
        let content = Content::Sequence(Vec::new());
        assert(views_of(Seq::<Content>::empty()) =~= Seq::<ContentView>::empty());
        Argument { address, length, content }
    }
}

} // verus!
