#![allow(dead_code)]

use mau::config::{KeyArgs, KeyMode, NamedArg, ThreadMode};
use mau::key::Argument;
use mau::material::KeyMaterial;
use mau::memo::{memo, FunctionItem, Memo, Step};
use mau::shape::{Binding, Parameter, Passing, TypeShape};
use std::cell::RefCell;
use std::sync::Mutex;

enum Storage<R> {
    Local(RefCell<Memo<R>>),
    Shared(Mutex<Memo<R>>),
}

struct Memoized<R> {
    storage: Storage<R>,
    key_mode: KeyMode,
}

impl<R: Clone> Memoized<R> {
    fn new(name: &str, attr: KeyArgs, params: Vec<Parameter>) -> Memoized<R> {
        let item = FunctionItem { name: name.to_string(), attrs: Vec::new(), params };
        let plan = memo(&attr, &item).unwrap();
        let key_mode = plan.key_mode();
        let storage = match plan.thread_mode() {
            ThreadMode::Single => Storage::Local(RefCell::new(Memo::new(plan))),
            ThreadMode::Multi => Storage::Shared(Mutex::new(Memo::new(plan))),
        };
        Memoized { storage, key_mode }
    }

    fn run(&self, args: Vec<Argument>, body: impl FnOnce() -> R) -> R {
        let step = match &self.storage {
            Storage::Local(cell) => cell.borrow().begin(&args),
            Storage::Shared(lock) => lock.lock().unwrap().begin(&args),
        };
        match step {
            Step::Hit(value) => value,
            Step::Bypass => body(),
            Step::Miss(key) => {
                let result = body();
                match &self.storage {
                    Storage::Local(cell) => cell.borrow_mut().complete(key, result.clone()),
                    Storage::Shared(lock) => lock.lock().unwrap().complete(key, result.clone()),
                }
                result
            }
        }
    }

    fn finish(&self) {
        match &self.storage {
            Storage::Local(cell) => cell.borrow_mut().finish(),
            Storage::Shared(lock) => lock.lock().unwrap().finish(),
        }
    }

    fn clear(&self) {
        match &self.storage {
            Storage::Local(cell) => cell.borrow_mut().clear(),
            Storage::Shared(lock) => lock.lock().unwrap().clear(),
        }
    }

    fn slice<T: KeyMaterial>(&self, data: &[T]) -> Argument {
        let at = data.as_ptr() as usize;
        if self.key_mode == KeyMode::Ptr {
            Argument::by_pointer(at, data.len())
        } else {
            Argument::by_slice(at, data)
        }
    }

    fn slice_as<S, T: KeyMaterial>(&self, data: &[S], content: &[T]) -> Argument {
        let at = data.as_ptr() as usize;
        if self.key_mode == KeyMode::Ptr {
            Argument::by_pointer(at, data.len())
        } else {
            Argument::by_slice(at, content)
        }
    }

    fn reference<T: KeyMaterial>(&self, referent: &T) -> Argument {
        let at = std::slice::from_ref(referent).as_ptr() as usize;
        if self.key_mode == KeyMode::Ptr {
            Argument::by_pointer(at, 0)
        } else {
            Argument::by_reference(at, referent)
        }
    }

    fn reference_as<S, T: KeyMaterial>(&self, referent: &S, content: &T) -> Argument {
        let at = std::slice::from_ref(referent).as_ptr() as usize;
        if self.key_mode == KeyMode::Ptr {
            Argument::by_pointer(at, 0)
        } else {
            Argument::by_reference(at, content)
        }
    }
}

fn pass<T: KeyMaterial>(v: T) -> Argument {
    Argument::by_value(&v)
}

fn bare(words: &[&str]) -> KeyArgs {
    KeyArgs { args: words.iter().map(|w| w.to_string()).collect(), named_args: Vec::new() }
}

fn named(pairs: &[(&str, &str)]) -> KeyArgs {
    KeyArgs {
        args: Vec::new(),
        named_args: pairs
            .iter()
            .map(|(k, v)| NamedArg { key: k.to_string(), value: v.to_string() })
            .collect(),
    }
}

fn param(name: &str, passing: Passing, ty: TypeShape) -> Parameter {
    Parameter { binding: Binding::Named(name.to_string()), passing, ty }
}

fn sequence_of(element: TypeShape) -> TypeShape {
    TypeShape::Sequence(Box::new(element))
}

fn by_value(name: &str) -> Parameter {
    param(name, Passing::Value, TypeShape::Plain)
}

fn by_ref(name: &str) -> Parameter {
    param(name, Passing::SharedRef, TypeShape::Plain)
}

fn by_slice(name: &str) -> Parameter {
    param(name, Passing::SharedRef, sequence_of(TypeShape::Plain))
}

fn basic_i32(m: &Memoized<i32>, n: i32) -> i32 {
    m.run(vec![pass(n)], || {
        println!("Computing basic_i32({})", n);
        n * n + 1
    })
}

fn basic_usize(m: &Memoized<usize>, n: usize) -> usize {
    m.run(vec![pass(n)], || {
        println!("Computing basic_usize({})", n);
        n * n + 1
    })
}

fn basic_bool(m: &Memoized<i32>, b: bool) -> i32 {
    m.run(vec![pass(b)], || {
        println!("Computing basic_bool({})", b);
        if b {
            42
        } else {
            0
        }
    })
}

fn basic_char(m: &Memoized<u32>, c: char) -> u32 {
    m.run(vec![pass(c)], || {
        println!("Computing basic_char({})", c);
        c as u32
    })
}

fn basic_multi(m: &Memoized<i32>, a: i32, b: i32, flag: bool) -> i32 {
    m.run(vec![pass(a), pass(b), pass(flag)], || {
        println!("Computing basic_multi({}, {}, {})", a, b, flag);
        if flag {
            a + b
        } else {
            a - b
        }
    })
}

#[test]
fn test_basic_types() {
    println!("=== Testing Basic Types ===");
    let memo_i32 = Memoized::new("basic_i32", bare(&[]), vec![by_value("n")]);
    let memo_usize = Memoized::new("basic_usize", bare(&[]), vec![by_value("n")]);
    let memo_bool = Memoized::new("basic_bool", bare(&[]), vec![by_value("b")]);
    let memo_char = Memoized::new("basic_char", bare(&[]), vec![by_value("c")]);
    let memo_multi = Memoized::new(
        "basic_multi",
        bare(&[]),
        vec![by_value("a"), by_value("b"), by_value("flag")],
    );

    let result1 = basic_i32(&memo_i32, 42);
    let result2 = basic_i32(&memo_i32, 42);
    assert_eq!(result1, result2);
    println!("i32 test: {} == {}", result1, result2);

    let result1 = basic_usize(&memo_usize, 100);
    let result2 = basic_usize(&memo_usize, 100);
    assert_eq!(result1, result2);
    println!("usize test: {} == {}", result1, result2);

    let result1 = basic_bool(&memo_bool, true);
    let result2 = basic_bool(&memo_bool, true);
    assert_eq!(result1, result2);
    println!("bool test: {} == {}", result1, result2);

    let result1 = basic_char(&memo_char, 'A');
    let result2 = basic_char(&memo_char, 'A');
    assert_eq!(result1, result2);
    println!("char test: {} == {}", result1, result2);

    let result1 = basic_multi(&memo_multi, 10, 20, true);
    let result2 = basic_multi(&memo_multi, 10, 20, true);
    assert_eq!(result1, result2);
    println!("multi params test: {} == {}", result1, result2);
}
