use br_core::collector::parser::StacktraceMerger;

#[test]
fn test_java_stacktrace() {
    let merger = StacktraceMerger::new();
    assert!(merger.is_continuation("\tat com.example.Foo.bar(Foo.java:42)"));
    assert!(merger.is_continuation("Caused by: java.lang.NullPointerException"));
    assert!(merger.is_continuation("... 5 more"));
}

#[test]
fn test_python_stacktrace() {
    let merger = StacktraceMerger::new();
    assert!(merger.is_continuation("  File \"app.py\", line 10, in main"));
    assert!(merger.is_continuation("Traceback (most recent call last):"));
}

#[test]
fn test_rust_backtrace() {
    let merger = StacktraceMerger::new();
    assert!(merger.is_continuation("   0: 0x10012345 - main"));
}

#[test]
fn test_normal_line_not_continuation() {
    let merger = StacktraceMerger::new();
    assert!(!merger.is_continuation("2024-01-01 INFO Request received"));
    assert!(!merger.is_continuation("[ERROR] Something went wrong"));
}
