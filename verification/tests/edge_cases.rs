#![allow(dead_code)]

use mau::config::{KeyArgs, KeyMode, NamedArg, ThreadMode};
use mau::key::Argument;
use mau::material::KeyMaterial;
use mau::memo::{memo, FunctionItem, Memo, Step};
use mau::shape::{Binding, Parameter, Passing, TypeShape};
use std::cell::RefCell;
use std::sync::Mutex;

enum Storage<R> {
    Local(RefCell<Memo<R>>),
    Shared(Mutex<Memo<R>>),
}

struct Memoized<R> {
    storage: Storage<R>,
    key_mode: KeyMode,
}

impl<R: Clone> Memoized<R> {
    fn new(name: &str, attr: KeyArgs, params: Vec<Parameter>) -> Memoized<R> {
        let item = FunctionItem { name: name.to_string(), attrs: Vec::new(), params };
        let plan = memo(&attr, &item).unwrap();
        let key_mode = plan.key_mode();
        let storage = match plan.thread_mode() {
            ThreadMode::Single => Storage::Local(RefCell::new(Memo::new(plan))),
            ThreadMode::Multi => Storage::Shared(Mutex::new(Memo::new(plan))),
        };
        Memoized { storage, key_mode }
    }

    fn run(&self, args: Vec<Argument>, body: impl FnOnce() -> R) -> R {
        let step = match &self.storage {
            Storage::Local(cell) => cell.borrow().begin(&args),
            Storage::Shared(lock) => lock.lock().unwrap().begin(&args),
        };
        match step {
            Step::Hit(value) => value,
            Step::Bypass => body(),
            Step::Miss(key) => {
                let result = body();
                match &self.storage {
                    Storage::Local(cell) => cell.borrow_mut().complete(key, result.clone()),
                    Storage::Shared(lock) => lock.lock().unwrap().complete(key, result.clone()),
                }
                result
            }
        }
    }

    fn finish(&self) {
        match &self.storage {
            Storage::Local(cell) => cell.borrow_mut().finish(),
            Storage::Shared(lock) => lock.lock().unwrap().finish(),
        }
    }

    fn clear(&self) {
        match &self.storage {
            Storage::Local(cell) => cell.borrow_mut().clear(),
            Storage::Shared(lock) => lock.lock().unwrap().clear(),
        }
    }

    fn slice<T: KeyMaterial>(&self, data: &[T]) -> Argument {
        let at = data.as_ptr() as usize;
        if self.key_mode == KeyMode::Ptr {
            Argument::by_pointer(at, data.len())
        } else {
            Argument::by_slice(at, data)
        }
    }

    fn slice_as<S, T: KeyMaterial>(&self, data: &[S], content: &[T]) -> Argument {
        let at = data.as_ptr() as usize;
        if self.key_mode == KeyMode::Ptr {
            Argument::by_pointer(at, data.len())
        } else {
            Argument::by_slice(at, content)
        }
    }

    fn reference<T: KeyMaterial>(&self, referent: &T) -> Argument {
        let at = std::slice::from_ref(referent).as_ptr() as usize;
        if self.key_mode == KeyMode::Ptr {
            Argument::by_pointer(at, 0)
        } else {
            Argument::by_reference(at, referent)
        }
    }

    fn reference_as<S, T: KeyMaterial>(&self, referent: &S, content: &T) -> Argument {
        let at = std::slice::from_ref(referent).as_ptr() as usize;
        if self.key_mode == KeyMode::Ptr {
            Argument::by_pointer(at, 0)
        } else {
            Argument::by_reference(at, content)
        }
    }
}

fn pass<T: KeyMaterial>(v: T) -> Argument {
    Argument::by_value(&v)
}

fn bare(words: &[&str]) -> KeyArgs {
    KeyArgs { args: words.iter().map(|w| w.to_string()).collect(), named_args: Vec::new() }
}

fn named(pairs: &[(&str, &str)]) -> KeyArgs {
    KeyArgs {
        args: Vec::new(),
        named_args: pairs
            .iter()
            .map(|(k, v)| NamedArg { key: k.to_string(), value: v.to_string() })
            .collect(),
    }
}

fn param(name: &str, passing: Passing, ty: TypeShape) -> Parameter {
    Parameter { binding: Binding::Named(name.to_string()), passing, ty }
}

fn sequence_of(element: TypeShape) -> TypeShape {
    TypeShape::Sequence(Box::new(element))
}

fn by_value(name: &str) -> Parameter {
    param(name, Passing::Value, TypeShape::Plain)
}

fn by_ref(name: &str) -> Parameter {
    param(name, Passing::SharedRef, TypeShape::Plain)
}

fn by_slice(name: &str) -> Parameter {
    param(name, Passing::SharedRef, sequence_of(TypeShape::Plain))
}

use std::collections::{BTreeMap, BTreeSet};

#[test]
fn edge_cases_test_edge_cases() {
    println!("=== Testing Edge Cases ===");

    test_empty_structures();

    test_single_element_structures();

    test_large_values();

    test_repeated_calls();

    test_nested_recursion();

    test_type_boundaries();
}

fn test_empty_structures() {
    let process_empty_vec_memo_state = setup_process_empty_vec_memo();
    let process_empty_set_memo_state = setup_process_empty_set_memo();
    let process_empty_map_memo_state = setup_process_empty_map_memo();
    println!("\n--- Empty Structures ---");

    let empty_vec1: Vec<i32> = vec![];
    let empty_vec2: Vec<i32> = vec![];

    let result1 = process_empty_vec_no_memo(&empty_vec1);
    let result2 = process_empty_vec_no_memo(&empty_vec2);
    let result1_memo = process_empty_vec_memo(&process_empty_vec_memo_state, &empty_vec1);
    let result2_memo = process_empty_vec_memo(&process_empty_vec_memo_state, &empty_vec2);

    assert_eq!(result1, result2);
    assert_eq!(result1, result1_memo);
    assert_eq!(result2, result2_memo);
    println!("Empty Vec: {} == {} == {} == {}", result1, result2, result1_memo, result2_memo);

    let empty_set1: BTreeSet<i32> = BTreeSet::new();
    let empty_set2: BTreeSet<i32> = BTreeSet::new();

    let result1 = process_empty_set_no_memo(&empty_set1);
    let result2 = process_empty_set_no_memo(&empty_set2);
    let result1_memo = process_empty_set_memo(&process_empty_set_memo_state, &empty_set1);
    let result2_memo = process_empty_set_memo(&process_empty_set_memo_state, &empty_set2);

    assert_eq!(result1, result2);
    assert_eq!(result1, result1_memo);
    assert_eq!(result2, result2_memo);
    println!("Empty BTreeSet: {} == {} == {} == {}", result1, result2, result1_memo, result2_memo);

    let empty_map1: BTreeMap<String, i32> = BTreeMap::new();
    let empty_map2: BTreeMap<String, i32> = BTreeMap::new();

    let result1 = process_empty_map_no_memo(&empty_map1);
    let result2 = process_empty_map_no_memo(&empty_map2);
    let result1_memo = process_empty_map_memo(&process_empty_map_memo_state, &empty_map1);
    let result2_memo = process_empty_map_memo(&process_empty_map_memo_state, &empty_map2);

    assert_eq!(result1, result2);
    assert_eq!(result1, result1_memo);
    assert_eq!(result2, result2_memo);
    println!("Empty BTreeMap: {} == {} == {} == {}", result1, result2, result1_memo, result2_memo);
}

fn test_single_element_structures() {
    let process_single_vec_memo_state = setup_process_single_vec_memo();
    println!("\n--- Single Element Structures ---");

    let single_vec1 = vec![42];
    let single_vec2 = vec![42];
    let single_vec3 = vec![43];

    let result1 = process_single_vec_no_memo(&single_vec1);
    let result2 = process_single_vec_no_memo(&single_vec2);
    let result3 = process_single_vec_no_memo(&single_vec3);

    let result1_memo = process_single_vec_memo(&process_single_vec_memo_state, &single_vec1);
    let result2_memo = process_single_vec_memo(&process_single_vec_memo_state, &single_vec2);
    let result3_memo = process_single_vec_memo(&process_single_vec_memo_state, &single_vec3);

    assert_eq!(result1, result2);
    assert_eq!(result1, result1_memo);
    assert_eq!(result2, result2_memo);
    assert_ne!(result1, result3);
    assert_eq!(result3, result3_memo);

    println!("Single Vec: {} == {} == {} != {} == {}", result1, result2, result1_memo, result3, result3_memo);
}

fn test_large_values() {
    let process_large_values_memo_state = setup_process_large_values_memo();
    println!("\n--- Large Values ---");

    let large_vec1 = vec![i32::MAX, i32::MIN, 0, 1, -1];
    let large_vec2 = vec![i32::MAX, i32::MIN, 0, 1, -1];
    let large_vec3 = vec![i32::MAX, i32::MIN, 0, 1, -2];

    let result1 = process_large_values_no_memo(&large_vec1);
    let result2 = process_large_values_no_memo(&large_vec2);
    let result3 = process_large_values_no_memo(&large_vec3);

    let result1_memo = process_large_values_memo(&process_large_values_memo_state, &large_vec1);
    let result2_memo = process_large_values_memo(&process_large_values_memo_state, &large_vec2);
    let result3_memo = process_large_values_memo(&process_large_values_memo_state, &large_vec3);

    assert_eq!(result1, result2);
    assert_eq!(result1, result1_memo);
    assert_eq!(result2, result2_memo);
    assert_ne!(result1, result3);
    assert_eq!(result3, result3_memo);

    println!("Large values: {} == {} == {} != {} == {}", result1, result2, result1_memo, result3, result3_memo);
}

fn test_repeated_calls() {
    let repeated_call_memo_state = setup_repeated_call_memo();
    println!("\n--- Repeated Calls ---");

    let data = vec![1, 2, 3, 4, 5];

    let mut results_no_memo = Vec::new();
    let mut results_memo = Vec::new();

    for _ in 0..5 {
        results_no_memo.push(repeated_call_no_memo(&data, 3));
        results_memo.push(repeated_call_memo(&repeated_call_memo_state, &data, 3));
    }

    for i in 1..results_no_memo.len() {
        assert_eq!(results_no_memo[0], results_no_memo[i]);
        assert_eq!(results_memo[0], results_memo[i]);
    }

    assert_eq!(results_no_memo[0], results_memo[0]);

    println!("Repeated calls: all {} results are equal", results_no_memo.len());
}

fn test_nested_recursion() {
    let nested_recursion_memo_state = setup_nested_recursion_memo();
    println!("\n--- Nested Recursion ---");

    let data = vec![1, 2, 3, 4, 5];

    let result1 = nested_recursion_no_memo(&data, 0, data.len());
    let result2 = nested_recursion_no_memo(&data, 0, data.len());

    let result1_memo = nested_recursion_memo(&nested_recursion_memo_state, &data, 0, data.len());
    let result2_memo = nested_recursion_memo(&nested_recursion_memo_state, &data, 0, data.len());

    assert_eq!(result1, result2);
    assert_eq!(result1, result1_memo);
    assert_eq!(result2, result2_memo);

    println!("Nested recursion: {} == {} == {} == {}", result1, result2, result1_memo, result2_memo);
}

fn test_type_boundaries() {
    let boundary_test_memo_state = setup_boundary_test_memo();
    let i32_boundary_test_memo_state = setup_i32_boundary_test_memo();
    println!("\n--- Type Boundaries ---");

    let max_usize = usize::MAX;
    let result1 = boundary_test_no_memo(max_usize);
    let result2 = boundary_test_no_memo(max_usize);

    let result1_memo = boundary_test_memo(&boundary_test_memo_state, max_usize);
    let result2_memo = boundary_test_memo(&boundary_test_memo_state, max_usize);

    assert_eq!(result1, result2);
    assert_eq!(result1, result1_memo);
    assert_eq!(result2, result2_memo);

    println!("Type boundaries: {} == {} == {} == {}", result1, result2, result1_memo, result2_memo);

    let max_i32 = i32::MAX;
    let min_i32 = i32::MIN;

    let result1 = i32_boundary_test_no_memo(max_i32, min_i32);
    let result2 = i32_boundary_test_no_memo(max_i32, min_i32);

    let result1_memo = i32_boundary_test_memo(&i32_boundary_test_memo_state, max_i32, min_i32);
    let result2_memo = i32_boundary_test_memo(&i32_boundary_test_memo_state, max_i32, min_i32);

    assert_eq!(result1, result2);
    assert_eq!(result1, result1_memo);
    assert_eq!(result2, result2_memo);

    println!("i32 boundaries: {} == {} == {} == {}", result1, result2, result1_memo, result2_memo);
}

fn process_empty_vec_no_memo(vec: &[i32]) -> i32 {
    vec.len() as i32
}

fn process_empty_vec_memo(state: &Memoized<i32>, vec: &[i32]) -> i32 {
    state.run(vec![state.slice(vec)], || {
        vec.len() as i32
    })
}

fn process_empty_set_no_memo(set: &BTreeSet<i32>) -> i32 {
    set.len() as i32
}

fn process_empty_set_memo(state: &Memoized<i32>, set: &BTreeSet<i32>) -> i32 {
    let args = vec![
        state.reference_as(set, &set.iter().map(|x| *x).collect::<Vec<_>>()),
    ];
    state.run(args, || {
        set.len() as i32
    })
}

fn process_empty_map_no_memo(map: &BTreeMap<String, i32>) -> i32 {
    map.len() as i32
}

fn process_empty_map_memo(state: &Memoized<i32>, map: &BTreeMap<String, i32>) -> i32 {
    let args = vec![
        state.reference_as(map, &map.iter().map(|(k, v)| (k.clone(), *v)).collect::<Vec<_>>()),
    ];
    state.run(args, || {
        map.len() as i32
    })
}

fn process_single_vec_no_memo(vec: &[i32]) -> i32 {
    if vec.is_empty() {
        0
    } else {
        vec[0] * 2
    }
}

fn process_single_vec_memo(state: &Memoized<i32>, vec: &[i32]) -> i32 {
    state.run(vec![state.slice(vec)], || {
        if vec.is_empty() {
            0
        } else {
            vec[0] * 2
        }
    })
}

fn process_large_values_no_memo(vec: &[i32]) -> i64 {
    vec.iter().map(|&x| x as i64).sum()
}

fn process_large_values_memo(state: &Memoized<i64>, vec: &[i32]) -> i64 {
    state.run(vec![state.slice(vec)], || {
        vec.iter().map(|&x| x as i64).sum()
    })
}

fn repeated_call_no_memo(data: &[i32], threshold: i32) -> i32 {
    data.iter().filter(|&&x| x > threshold).sum()
}

fn repeated_call_memo(state: &Memoized<i32>, data: &[i32], threshold: i32) -> i32 {
    state.run(vec![state.slice(data), pass(threshold)], || {
        data.iter().filter(|&&x| x > threshold).sum()
    })
}

fn nested_recursion_no_memo(data: &[i32], start: usize, end: usize) -> i32 {
    if start >= end {
        return 0;
    }

    let mid = (start + end) / 2;
    let left = nested_recursion_no_memo(data, start, mid);
    let right = nested_recursion_no_memo(data, mid + 1, end);

    left + right + data[mid]
}

fn nested_recursion_memo(state: &Memoized<i32>, data: &[i32], start: usize, end: usize) -> i32 {
    state.run(vec![state.slice(data), pass(start), pass(end)], || {
        if start >= end {
            return 0;
        }

        let mid = (start + end) / 2;
        let left = nested_recursion_memo(state, data, start, mid);
        let right = nested_recursion_memo(state, data, mid + 1, end);

        left + right + data[mid]
    })
}

fn boundary_test_no_memo(value: usize) -> usize {
    if value == 0 {
        0
    } else {
        value - 1
    }
}

fn boundary_test_memo(state: &Memoized<usize>, value: usize) -> usize {
    state.run(vec![pass(value)], || {
        if value == 0 {
            0
        } else {
            value - 1
        }
    })
}

fn i32_boundary_test_no_memo(max: i32, min: i32) -> i64 {
    (max as i64) + (min as i64)
}

fn i32_boundary_test_memo(state: &Memoized<i64>, max: i32, min: i32) -> i64 {
    state.run(vec![pass(max), pass(min)], || {
        (max as i64) + (min as i64)
    })
}

fn setup_process_empty_vec_memo() -> Memoized<i32> {
    Memoized::new(
        "process_empty_vec_memo",
        bare(&[]),
        vec![by_slice("vec")],
    )
}

fn setup_process_empty_set_memo() -> Memoized<i32> {
    Memoized::new(
        "process_empty_set_memo",
        bare(&[]),
        vec![by_ref("set")],
    )
}

fn setup_process_empty_map_memo() -> Memoized<i32> {
    Memoized::new(
        "process_empty_map_memo",
        bare(&[]),
        vec![by_ref("map")],
    )
}

fn setup_process_single_vec_memo() -> Memoized<i32> {
    Memoized::new(
        "process_single_vec_memo",
        bare(&[]),
        vec![by_slice("vec")],
    )
}

fn setup_process_large_values_memo() -> Memoized<i64> {
    Memoized::new(
        "process_large_values_memo",
        bare(&[]),
        vec![by_slice("vec")],
    )
}

fn setup_repeated_call_memo() -> Memoized<i32> {
    Memoized::new(
        "repeated_call_memo",
        bare(&[]),
        vec![by_slice("data"), by_value("threshold")],
    )
}

fn setup_nested_recursion_memo() -> Memoized<i32> {
    Memoized::new(
        "nested_recursion_memo",
        bare(&[]),
        vec![by_slice("data"), by_value("start"), by_value("end")],
    )
}

fn setup_boundary_test_memo() -> Memoized<usize> {
    Memoized::new(
        "boundary_test_memo",
        bare(&[]),
        vec![by_value("value")],
    )
}

fn setup_i32_boundary_test_memo() -> Memoized<i64> {
    Memoized::new(
        "i32_boundary_test_memo",
        bare(&[]),
        vec![by_value("max"), by_value("min")],
    )
}
