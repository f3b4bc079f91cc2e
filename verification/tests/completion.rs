use lspresso_shot::completion::{
    CompletionList, CompletionMismatchError, CompletionResponse, CompletionResult,
};
use lspresso_shot::json::JsonValue;

fn item(label: &str) -> JsonValue {
    JsonValue::Object(vec![(
        "label".to_string(),
        JsonValue::String(label.to_string()),
    )])
}

fn items(labels: &[&str]) -> Vec<JsonValue> {
    labels.iter().map(|l| item(l)).collect()
}

#[test]
fn contains_ignores_order_and_extra_items() {
    let expected = CompletionResult::Contains(items(&["b", "a"]));
    let actual = CompletionResponse::Array(items(&["a", "x", "b"]));
    assert!(expected.results_satisfy(&actual));
    let list = CompletionResponse::List(CompletionList {
        is_incomplete: true,
        items: items(&["b", "a"]),
    });
    assert!(expected.results_satisfy(&list));
}

#[test]
fn contains_counts_repeats() {
    let expected = CompletionResult::Contains(items(&["a", "a"]));
    assert!(!expected.results_satisfy(&CompletionResponse::Array(items(&["a"]))));
    assert!(expected.results_satisfy(&CompletionResponse::Array(items(&["a", "b", "a"]))));
}

#[test]
fn contains_nothing_is_always_satisfied() {
    let expected = CompletionResult::Contains(vec![]);
    assert!(expected.results_satisfy(&CompletionResponse::Array(vec![])));
}

#[test]
fn exact_needs_same_kind_and_order() {
    let exact = CompletionResult::Exact(CompletionResponse::Array(items(&["a", "b"])));
    assert!(exact.results_satisfy(&CompletionResponse::Array(items(&["a", "b"]))));
    assert!(!exact.results_satisfy(&CompletionResponse::Array(items(&["b", "a"]))));
    assert!(!exact.results_satisfy(&CompletionResponse::List(CompletionList {
        is_incomplete: false,
        items: items(&["a", "b"]),
    })));
    let exact_list = CompletionResult::Exact(CompletionResponse::List(CompletionList {
        is_incomplete: false,
        items: items(&["a"]),
    }));
    assert!(!exact_list.results_satisfy(&CompletionResponse::List(CompletionList {
        is_incomplete: true,
        items: items(&["a"]),
    })));
    assert!(exact_list.results_satisfy(&CompletionResponse::List(CompletionList {
        is_incomplete: false,
        items: items(&["a"]),
    })));
}

#[test]
fn contains_mismatch_lists_unprovided_then_provided() {
    let err = CompletionMismatchError {
        test_id: "1".to_string(),
        expected: CompletionResult::Contains(items(&["a", "c", "d"])),
        actual: CompletionResponse::Array(items(&["a", "b"])),
    };
    assert_eq!(
        "Unprovided items:\n\u{1b}[31m{\"label\":\"c\"}\u{1b}[0m\n\u{1b}[31m{\"label\":\"d\"}\u{1b}[0m\n\nProvided items:\n\u{1b}[31m{\"label\":\"a\"}\u{1b}[0m\n\u{1b}[31m{\"label\":\"b\"}\u{1b}[0m\n",
        err.message()
    );
    let single = CompletionMismatchError {
        test_id: "1".to_string(),
        expected: CompletionResult::Contains(items(&["z"])),
        actual: CompletionResponse::Array(items(&["a"])),
    };
    assert_eq!(
        "Unprovided item:\n\u{1b}[31m{\"label\":\"z\"}\u{1b}[0m\n\nProvided item:\n\u{1b}[31m{\"label\":\"a\"}\u{1b}[0m\n",
        single.message()
    );
}

#[test]
fn exact_mismatch_of_different_kinds_says_so() {
    let err = CompletionMismatchError {
        test_id: "1".to_string(),
        expected: CompletionResult::Exact(CompletionResponse::Array(items(&["a"]))),
        actual: CompletionResponse::List(CompletionList {
            is_incomplete: false,
            items: items(&["a"]),
        }),
    };
    assert_eq!(
        "Expected `CompletionResponse::Array`, got `CompletionResponse::List`\n[\n  CompletionResponse: {\n\u{1b}[32m    label: \"a\"\u{1b}[0m\n  },\n],\n",
        err.message()
    );
}

#[test]
fn exact_mismatch_of_lists_compares_fields() {
    let err = CompletionMismatchError {
        test_id: "1".to_string(),
        expected: CompletionResult::Exact(CompletionResponse::List(CompletionList {
            is_incomplete: true,
            items: vec![],
        })),
        actual: CompletionResponse::List(CompletionList {
            is_incomplete: false,
            items: vec![],
        }),
    };
    assert_eq!(
        "{\n\u{1b}[31m  isIncomplete: \n    Expected: true\n    Actual: false\u{1b}[0m\n  items: [\n  ],\n},\n",
        err.message()
    );
}

#[test]
fn an_exact_match_also_contains_its_items() {
    let actual = CompletionResponse::List(CompletionList {
        is_incomplete: false,
        items: items(&["a", "b"]),
    });
    let exact = CompletionResult::Exact(CompletionResponse::List(CompletionList {
        is_incomplete: false,
        items: items(&["a", "b"]),
    }));
    assert!(exact.results_satisfy(&actual));
    assert!(CompletionResult::Contains(items(&["a", "b"])).results_satisfy(&actual));
}

#[test]
fn item_numbers_compare_by_value() {
    let with = |n: &str| {
        JsonValue::Object(vec![
            ("data".to_string(), JsonValue::Number(n.to_string())),
            ("label".to_string(), JsonValue::String("a".to_string())),
        ])
    };
    let actual = CompletionResponse::Array(vec![with("0.0")]);
    assert!(CompletionResult::Contains(vec![with("-0.0")]).results_satisfy(&actual));
    assert!(CompletionResult::Exact(CompletionResponse::Array(vec![with("-0.0")])).results_satisfy(&actual));
    assert!(!CompletionResult::Contains(vec![with("1")]).results_satisfy(&actual));
}

#[test]
fn unprovided_items_are_shown_as_written() {
    let with = |n: &str| {
        JsonValue::Object(vec![
            ("data".to_string(), JsonValue::Number(n.to_string())),
            ("label".to_string(), JsonValue::String("a".to_string())),
        ])
    };
    let err = CompletionMismatchError {
        test_id: "1".to_string(),
        expected: CompletionResult::Contains(vec![with("-0.0"), with("-0.0")]),
        actual: CompletionResponse::Array(vec![with("0.0")]),
    };
    assert_eq!(
        "Unprovided item:\n\u{1b}[31m{\"data\":-0.0,\"label\":\"a\"}\u{1b}[0m\n\nProvided item:\n\u{1b}[31m{\"data\":0.0,\"label\":\"a\"}\u{1b}[0m\n",
        err.message()
    );
}
