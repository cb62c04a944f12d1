//! Argument scanning and the driver's interception decision.

use desugar::options::{desugar_args_env, CliOpts};
use desugar::util::{arg_value, arg_values, is_selected_crate, u128_to_dec};

fn strings(xs: &[&str]) -> Vec<String> {
    xs.iter().map(|x| String::from(*x)).collect()
}

#[test]
fn collects_equals_and_space_forms() {
    let args = strings(&["--target", "x86", "--verbose", "--target=aarch64", "tail"]);
    assert_eq!(
        arg_values(&args, "--target"),
        strings(&["x86", "aarch64"])
    );
}

#[test]
fn space_form_consumes_the_value() {
    // the consumed value is not itself examined as an option
    let args = strings(&["--flag", "--flag", "--flag"]);
    assert_eq!(arg_values(&args, "--flag"), strings(&["--flag"]));
}

#[test]
fn value_containing_equals_splits_once() {
    let args = strings(&["--cfg=a=b"]);
    assert_eq!(arg_values(&args, "--cfg"), strings(&["a=b"]));
}

#[test]
fn missing_option_yields_nothing() {
    let args = strings(&["--target=x86"]);
    assert!(arg_values(&args, "--edition").is_empty());
    assert_eq!(arg_value(&args, "--edition"), None);
}

#[test]
fn trailing_option_without_value_yields_nothing() {
    let args = strings(&["--target"]);
    assert!(arg_values(&args, "--target").is_empty());
}

#[test]
fn first_value_wins_for_arg_value() {
    let args = strings(&["--target=one", "--target", "two"]);
    assert_eq!(arg_value(&args, "--target"), Some(String::from("one")));
}

#[test]
fn selection_requires_target_and_primary_package() {
    // a dependency built under the cargo wrapper is passed through
    assert!(!is_selected_crate(true, false, true));
    // the selected crate is intercepted only when built for a target
    assert!(is_selected_crate(true, true, true));
    assert!(!is_selected_crate(true, true, false));
    // outside the cargo wrapper the target flag alone decides
    assert!(is_selected_crate(false, false, true));
    assert!(!is_selected_crate(false, false, false));
}

#[test]
fn decimal_rendering() {
    assert_eq!(u128_to_dec(0), "0");
    assert_eq!(u128_to_dec(10), "10");
    assert_eq!(u128_to_dec(340282366920938463463374607431768211455), "340282366920938463463374607431768211455");
}

#[test]
fn options_round_trip_defaults() {
    let opts = CliOpts::default();
    assert!(opts.rustc_args.is_empty());
    assert_eq!(desugar_args_env(), "CARGO_DESUGAR_ARGS");
}
