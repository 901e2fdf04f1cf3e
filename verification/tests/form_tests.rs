use reratui::batch::StateBatch;
use reratui::context_stack::ContextStack;
use reratui::fiber::FiberId;
use reratui::fiber_tree::FiberTree;
use reratui::hooks::form::{
    try_use_form_context, use_form, use_form_context, use_watch, use_watch_all, use_watch_multiple,
    FieldRegistration, FormConfig,
};
use reratui::hooks::validator::Validator;
use reratui::string_map::StringMap;
use std::cell::RefCell;
use std::rc::Rc;

type Check = fn(&str) -> Option<String>;
type Submit = fn(StringMap);

fn setup_test_fiber() -> (FiberTree, StateBatch, ContextStack, FiberId) {
    let mut tree = FiberTree::new();
    let fiber_id = tree.mount(None, None);
    tree.begin_render(fiber_id);
    (tree, StateBatch::new(), ContextStack::new(), fiber_id)
}

fn apply_batch_and_rerender(tree: &mut FiberTree, batch: &mut StateBatch, fiber_id: FiberId) {
    tree.end_render();
    batch.end_batch(tree);
    tree.begin_render(fiber_id);
}

#[test]
fn test_validator_required() {
    let validator: Validator<Check> = Validator::required("Field is required");

    assert!(validator.validate("").is_some());
    assert!(validator.validate("   ").is_some());
    assert!(validator.validate("value").is_none());
}

#[test]
fn test_validator_min_length() {
    let validator: Validator<Check> = Validator::min_length(5, "Must be at least 5 characters");

    assert!(validator.validate("abc").is_some());
    assert!(validator.validate("abcde").is_none());
    assert!(validator.validate("abcdef").is_none());
}

#[test]
fn test_validator_max_length() {
    let validator: Validator<Check> = Validator::max_length(5, "Must be at most 5 characters");

    assert!(validator.validate("abcdef").is_some());
    assert!(validator.validate("abcde").is_none());
    assert!(validator.validate("abc").is_none());
}

#[test]
fn test_validator_email() {
    let validator: Validator<Check> = Validator::email("Invalid email");

    assert!(validator.validate("invalid").is_some());
    assert!(validator.validate("test@").is_some());
    assert!(validator.validate("test@example.com").is_none());
    assert!(validator.validate("user.name+tag@example.co.uk").is_none());
    assert!(validator.validate("").is_none());
}

#[test]
fn test_validator_numeric() {
    let validator: Validator<Check> = Validator::numeric("Must be a number");

    assert!(validator.validate("abc").is_some());
    assert!(validator.validate("123").is_none());
    assert!(validator.validate("123.45").is_none());
    assert!(validator.validate("-123.45").is_none());
}

#[test]
fn test_validator_custom() {
    let validator = Validator::custom(|value: &str| {
        if value.starts_with("test") {
            None
        } else {
            Some("Must start with 'test'".to_string())
        }
    });

    assert!(validator.validate("hello").is_some());
    assert!(validator.validate("test123").is_none());
}

#[test]
fn numeric_accepts_float_syntax_only() {
    let validator: Validator<Check> = Validator::numeric("Must be a number");
    for ok in ["", "1e5", "1.", ".5", "+3", "inf", "-Infinity", "NaN", "2E-3"] {
        assert!(validator.validate(ok).is_none(), "{ok}");
    }
    for bad in [".", "e5", "1e", "1.2.3", " 1", "1 ", "--1", "0x10", "in"] {
        assert_eq!(validator.validate(bad), Some("Must be a number".to_string()), "{bad}");
    }
}

#[test]
fn integer_accepts_i64_range_only() {
    let validator: Validator<Check> = Validator::integer("Must be an integer");
    assert!(validator.validate("-9223372036854775808").is_none());
    assert!(validator.validate("9223372036854775807").is_none());
    assert!(validator.validate("9223372036854775808").is_some());
    assert!(validator.validate("1.5").is_some());
    assert!(validator.validate("+7").is_none());
    assert!(validator.validate("-9223372036854775809").is_some());
    assert!(validator.validate("-").is_some());
    assert!(validator.validate("+").is_some());
    assert!(validator.validate("12a").is_some());
    assert!(validator.validate("99999999999999999999x").is_some());
    assert!(validator.validate("007").is_none());
    assert!(validator.validate("").is_none());
}

#[test]
fn text_class_validators() {
    let alpha: Validator<Check> = Validator::alpha("letters");
    assert!(alpha.validate("abcé").is_none());
    assert!(alpha.validate("ab1").is_some());
    let alnum: Validator<Check> = Validator::alphanumeric("letters and digits");
    assert!(alnum.validate("ab1").is_none());
    assert!(alnum.validate("a b").is_some());
    let same: Validator<Check> = Validator::matches("secret".to_string(), "must match");
    assert!(same.validate("secret").is_none());
    assert_eq!(same.validate("other"), Some("must match".to_string()));
}

#[test]
fn pattern_and_url_validators() {
    let zip: Validator<Check> = Validator::pattern(r"^\d{5}$", "five digits");
    assert!(zip.validate("12345").is_none());
    assert!(zip.validate("1234").is_some());
    assert!(zip.validate("").is_none());
    let url: Validator<Check> = Validator::url("Invalid URL");
    assert!(url.validate("https://example.com").is_none());
    assert!(url.validate("ftp://example.com").is_some());
}

#[test]
fn test_form_config_builder() {
    let config = FormConfig::<Check, Submit>::builder()
        .field("email", "test@example.com")
        .field("name", "John")
        .validator("email", Validator::required("Email required"))
        .on_submit(|_| {})
        .build();

    assert_eq!(config.initial_values.get("email"), Some(&"test@example.com".to_string()));
    assert_eq!(config.initial_values.get("name"), Some(&"John".to_string()));
    assert!(config.validators.get("email").is_some());
}

#[test]
fn test_form_config_builder_with_default_submit() {
    let config = FormConfig::<Check, Submit>::builder().field("email", "").build_with_default_submit();

    assert!(config.initial_values.contains_key("email"));
}

#[test]
#[should_panic(expected = "on_submit handler must be set")]
fn test_form_config_builder_panics_without_submit() {
    let _ = FormConfig::<Check, Submit>::builder().field("email", "").build();
}

#[test]
fn test_use_form_initializes_state() {
    let (mut tree, _batch, mut contexts, _fiber_id) = setup_test_fiber();

    let form = use_form(
        &mut tree,
        &mut contexts,
        FormConfig::<Check, Submit>::builder()
            .field("email", "test@example.com")
            .field("name", "John")
            .on_submit(|_| {})
            .build(),
    );

    assert_eq!(form.get_value(&tree, "email"), Some("test@example.com".to_string()));
    assert_eq!(form.get_value(&tree, "name"), Some("John".to_string()));
    assert!(!form.is_submitting(&tree));
    assert!(form.is_valid(&tree));
}

#[test]
fn test_use_form_set_value() {
    let (mut tree, mut batch, mut contexts, fiber_id) = setup_test_fiber();
    let config = || FormConfig::<Check, Submit>::builder().field("email", "").on_submit(|_| {}).build();

    let form = use_form(&mut tree, &mut contexts, config());
    form.set_value(&tree, &mut batch, "email", "new@example.com".to_string());

    apply_batch_and_rerender(&mut tree, &mut batch, fiber_id);

    let form = use_form(&mut tree, &mut contexts, config());
    assert_eq!(form.get_value(&tree, "email"), Some("new@example.com".to_string()));
}

#[test]
fn test_use_form_touched_state() {
    let (mut tree, mut batch, mut contexts, fiber_id) = setup_test_fiber();
    let config = || FormConfig::<Check, Submit>::builder().field("email", "").on_submit(|_| {}).build();

    let form = use_form(&mut tree, &mut contexts, config());
    assert!(!form.is_touched(&tree, "email"));

    form.set_touched(&tree, &mut batch, "email", true);
    apply_batch_and_rerender(&mut tree, &mut batch, fiber_id);

    let form = use_form(&mut tree, &mut contexts, config());
    assert!(form.is_touched(&tree, "email"));
}

#[test]
fn test_use_form_validation() {
    let (mut tree, mut batch, mut contexts, _fiber_id) = setup_test_fiber();

    let form = use_form(
        &mut tree,
        &mut contexts,
        FormConfig::<Check, Submit>::builder()
            .field("email", "")
            .validator("email", Validator::required("Email is required"))
            .on_submit(|_| {})
            .build(),
    );

    let is_valid = form.validate_field(&tree, &mut batch, "email", "");
    assert!(!is_valid);

    let is_valid = form.validate_field(&tree, &mut batch, "email", "test@example.com");
    assert!(is_valid);
}

#[test]
fn test_use_form_register() {
    let (mut tree, _batch, mut contexts, _fiber_id) = setup_test_fiber();

    let form = use_form(
        &mut tree,
        &mut contexts,
        FormConfig::<Check, Submit>::builder().field("email", "test@example.com").on_submit(|_| {}).build(),
    );

    let registration = form.register(&tree, "email");

    assert_eq!(registration.name, "email");
    assert_eq!(registration.value, "test@example.com");
    assert!(registration.error.is_none());
    assert!(!registration.touched);
}

#[test]
fn test_use_form_reset() {
    let (mut tree, mut batch, mut contexts, fiber_id) = setup_test_fiber();
    let config =
        || FormConfig::<Check, Submit>::builder().field("email", "initial@example.com").on_submit(|_| {}).build();

    let form = use_form(&mut tree, &mut contexts, config());
    form.set_value(&tree, &mut batch, "email", "changed@example.com".to_string());
    form.set_touched(&tree, &mut batch, "email", true);
    apply_batch_and_rerender(&mut tree, &mut batch, fiber_id);

    let form = use_form(&mut tree, &mut contexts, config());
    let mut new_initial = StringMap::new();
    new_initial.insert("email".to_string(), "reset@example.com".to_string());
    form.reset(&tree, &mut batch, new_initial);

    apply_batch_and_rerender(&mut tree, &mut batch, fiber_id);

    let form = use_form(&mut tree, &mut contexts, config());
    assert_eq!(form.get_value(&tree, "email"), Some("reset@example.com".to_string()));
    assert!(!form.is_touched(&tree, "email"));
}

#[test]
fn test_use_form_get_all_values() {
    let (mut tree, _batch, mut contexts, _fiber_id) = setup_test_fiber();

    let form = use_form(
        &mut tree,
        &mut contexts,
        FormConfig::<Check, Submit>::builder()
            .field("email", "test@example.com")
            .field("name", "John")
            .on_submit(|_| {})
            .build(),
    );

    let values = form.get_values(&tree);

    assert_eq!(values.len(), 2);
    assert_eq!(values.get("email"), Some(&"test@example.com".to_string()));
    assert_eq!(values.get("name"), Some(&"John".to_string()));
}

#[test]
fn test_use_form_context() {
    let (mut tree, _batch, mut contexts, _fiber_id) = setup_test_fiber();

    let _form = use_form(
        &mut tree,
        &mut contexts,
        FormConfig::<Check, Submit>::builder().field("email", "context@example.com").on_submit(|_| {}).build(),
    );

    let form_from_context = use_form_context(&contexts);

    assert_eq!(form_from_context.get_value(&tree, "email"), Some("context@example.com".to_string()));
}

#[test]
fn test_try_use_form_context_returns_none() {
    let contexts = ContextStack::new();

    let result = try_use_form_context(&contexts);
    assert!(result.is_none());
}

#[test]
fn test_use_watch() {
    let (mut tree, mut batch, mut contexts, _fiber_id) = setup_test_fiber();

    let form = use_form(
        &mut tree,
        &mut contexts,
        FormConfig::<Check, Submit>::builder().field("email", "watch@example.com").on_submit(|_| {}).build(),
    );

    let value = use_watch(&mut tree, &mut batch, &form.form_ref(), "email");

    assert_eq!(value, "watch@example.com");
}

#[test]
fn test_use_watch_multiple() {
    let (mut tree, mut batch, mut contexts, _fiber_id) = setup_test_fiber();

    let form = use_form(
        &mut tree,
        &mut contexts,
        FormConfig::<Check, Submit>::builder()
            .field("email", "test@example.com")
            .field("name", "John")
            .on_submit(|_| {})
            .build(),
    );

    let values = use_watch_multiple(&mut tree, &mut batch, &form.form_ref(), &["email", "name"]);

    assert_eq!(values.get("email"), Some(&"test@example.com".to_string()));
    assert_eq!(values.get("name"), Some(&"John".to_string()));
}

#[test]
fn test_use_watch_all() {
    let (mut tree, mut batch, mut contexts, _fiber_id) = setup_test_fiber();

    let form = use_form(
        &mut tree,
        &mut contexts,
        FormConfig::<Check, Submit>::builder()
            .field("email", "test@example.com")
            .field("name", "John")
            .field("age", "30")
            .on_submit(|_| {})
            .build(),
    );

    let values = use_watch_all(&mut tree, &mut batch, &form.form_ref());

    assert_eq!(values.len(), 3);
    assert_eq!(values.get("email"), Some(&"test@example.com".to_string()));
    assert_eq!(values.get("name"), Some(&"John".to_string()));
    assert_eq!(values.get("age"), Some(&"30".to_string()));
}

#[test]
fn test_field_registration_has_error() {
    let reg_with_error = FieldRegistration {
        name: "email".to_string(),
        value: "".to_string(),
        error: Some("Required".to_string()),
        touched: true,
    };

    let reg_without_error = FieldRegistration {
        name: "email".to_string(),
        value: "test@example.com".to_string(),
        error: None,
        touched: true,
    };

    assert!(reg_with_error.has_error());
    assert_eq!(reg_with_error.error_message(), Some("Required"));

    assert!(!reg_without_error.has_error());
    assert_eq!(reg_without_error.error_message(), None);
}

#[test]
fn touched_field_is_validated_on_set_value() {
    let (mut tree, mut batch, mut contexts, fiber_id) = setup_test_fiber();
    let config = || {
        FormConfig::<Check, Submit>::builder()
            .field("email", "x@example.com")
            .validator("email", Validator::required("Email is required"))
            .on_submit(|_| {})
            .build()
    };
    let form = use_form(&mut tree, &mut contexts, config());
    form.set_touched(&tree, &mut batch, "email", true);
    form.set_value(&tree, &mut batch, "email", "".to_string());
    apply_batch_and_rerender(&mut tree, &mut batch, fiber_id);
    let form = use_form(&mut tree, &mut contexts, config());
    assert_eq!(form.get_error(&tree, "email"), Some("Email is required".to_string()));
    assert!(form.has_errors(&tree));
    assert!(form.is_dirty(&tree));
}

#[test]
fn submit_runs_handler_only_when_valid() {
    let (mut tree, mut batch, mut contexts, fiber_id) = setup_test_fiber();
    let seen: Rc<RefCell<Vec<String>>> = Rc::new(RefCell::new(Vec::new()));
    let seen2 = seen.clone();
    let form = use_form(
        &mut tree,
        &mut contexts,
        FormConfig::<Check, _>::builder()
            .field("name", "")
            .validator("name", Validator::required("Name is required"))
            .on_submit(move |values: StringMap| {
                seen2.borrow_mut().push(values.get("name").cloned().unwrap_or_default());
            })
            .build(),
    );
    form.submit(&tree, &mut batch);
    assert!(seen.borrow().is_empty());
    apply_batch_and_rerender(&mut tree, &mut batch, fiber_id);
    let _ = form.validate_all(&tree, &mut batch);
    assert!(form.is_touched(&tree, "name"));
    assert!(!form.is_valid(&tree));

    form.set_value(&tree, &mut batch, "name", "Ada".to_string());
    apply_batch_and_rerender(&mut tree, &mut batch, fiber_id);
    form.submit(&tree, &mut batch);
    assert_eq!(*seen.borrow(), vec!["Ada".to_string()]);
    apply_batch_and_rerender(&mut tree, &mut batch, fiber_id);
    assert!(form.is_valid(&tree));
    assert!(!form.is_submitting(&tree));
}

#[test]
fn child_component_watches_parent_form() {
    let (mut tree, mut batch, mut contexts, parent) = setup_test_fiber();
    let form = use_form(
        &mut tree,
        &mut contexts,
        FormConfig::<Check, Submit>::builder().field("email", "x@example.com").on_submit(|_| {}).build(),
    );
    let shared = form.form_ref();
    tree.end_render();
    let child = tree.mount(Some(parent), None);
    tree.begin_render(child);
    let from_context = use_form_context(&contexts);
    assert_eq!(use_watch(&mut tree, &mut batch, &from_context, "email"), "x@example.com");
    assert_eq!(use_watch(&mut tree, &mut batch, &shared, "email"), "x@example.com");
}

#[test]
fn dirty_means_values_differ_from_initial() {
    let (mut tree, mut batch, mut contexts, fiber_id) = setup_test_fiber();
    let config = || FormConfig::<Check, Submit>::builder().field("name", "Ann").on_submit(|_| {}).build();
    let form = use_form(&mut tree, &mut contexts, config());
    assert!(!form.is_dirty(&tree));
    form.set_touched(&tree, &mut batch, "name", true);
    apply_batch_and_rerender(&mut tree, &mut batch, fiber_id);
    let form = use_form(&mut tree, &mut contexts, config());
    assert!(!form.is_dirty(&tree));
    form.set_value(&tree, &mut batch, "name", "Bob".to_string());
    apply_batch_and_rerender(&mut tree, &mut batch, fiber_id);
    let form = use_form(&mut tree, &mut contexts, config());
    assert!(form.is_dirty(&tree));
    form.set_value(&tree, &mut batch, "name", "Ann".to_string());
    apply_batch_and_rerender(&mut tree, &mut batch, fiber_id);
    let form = use_form(&mut tree, &mut contexts, config());
    assert!(!form.is_dirty(&tree));
}

#[test]
fn try_validate_reports_a_pattern_that_did_not_compile() {
    let broken: Validator<Check> = Validator::pattern("(", "bad");
    assert!(!broken.pattern_compiled());
    assert_eq!(broken.try_validate("x"), None);
    let zip: Validator<Check> = Validator::pattern(r"^\d{5}$", "five digits");
    assert!(zip.pattern_compiled());
    assert_eq!(zip.try_validate("12345"), Some(None));
    assert_eq!(zip.try_validate("1234"), Some(Some("five digits".to_string())));
    let required: Validator<Check> = Validator::required("needed");
    assert_eq!(required.try_validate(""), Some(Some("needed".to_string())));
}
