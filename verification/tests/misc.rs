use apollo::config::check_allow_importing_interval_as_struct;
use apollo::config::env_flag;
use apollo::config::unknown_extension_behavior;
use apollo::config::StartupPlan;
use apollo::config::StartupRegistry;
use apollo::config::UnknownExtensionTypeBehavior;
use apollo::error::ApolloError;
use apollo::error::ApolloResult;
use apollo::error::ApolloWarning;
use apollo::frame::DataFrame;
use apollo::predicate::serialize;
use apollo::schema::Schema;
use apollo::udf::display_udf_mut;
use apollo::udf::display_udf_schema;
use apollo::udf::DataFrameUdf;
use apollo::udf::DataFrameUdfMut;
use apollo::udf::UdfSchema;
use apollo::utils_error::ApolloUtilsError;
use apollo::utils_error::TruncateErrorDetail;
use apollo::warning::format_warning;
use apollo::warning::get_warning_function;
use apollo::warning::set_warning_function;
use apollo::warning::WarningRegistry;

#[test]
fn short_details_are_shown_whole() {
    assert_eq!(TruncateErrorDetail("short").render(false), "short");
    let exact = "x".repeat(4096);
    assert_eq!(TruncateErrorDetail(&exact).render(false), exact);
    assert_eq!(TruncateErrorDetail(&exact).try_render(false), Some(exact.clone()));
}

#[test]
fn long_details_are_cut_unless_verbose() {
    let long = "y".repeat(5000);
    let shown = TruncateErrorDetail(&long).render(false);
    assert_eq!(
        shown,
        format!(
            "{} ...(set APOLLO_VERBOSE=1 to see full response (904 more characters))",
            "y".repeat(4096)
        )
    );
    assert_eq!(TruncateErrorDetail(&long).render(true), long);
    let one_more = "z".repeat(4097);
    assert!(TruncateErrorDetail(&one_more)
        .render(false)
        .ends_with("(1 more characters))"));
}

#[test]
fn a_cut_inside_a_character_is_refused() {
    let split = format!("{}\u{e9}tail", "a".repeat(4095));
    assert!(!split.is_char_boundary(4096));
    assert_eq!(TruncateErrorDetail(&split).try_render(false), None);
    assert_eq!(TruncateErrorDetail(&split).try_render(true), Some(split.clone()));
    let whole = format!("{}\u{e9}tail", "a".repeat(4094));
    let shown = TruncateErrorDetail(&whole).try_render(false).unwrap();
    assert!(shown.starts_with(&whole[..4096]));
    assert!(shown.ends_with("(4 more characters))"));
}

#[test]
fn utility_errors_show_their_text() {
    assert_eq!(ApolloUtilsError::ComputeError("bad".to_string()).message(), "bad");
}

#[test]
fn switches_of_the_environment() {
    assert!(env_flag(Some("1")));
    assert!(!env_flag(Some("0")));
    assert!(!env_flag(Some("true")));
    assert!(!env_flag(None));
    let load_as_storage = UnknownExtensionTypeBehavior::LoadAsStorage;
    let load_as_generic = UnknownExtensionTypeBehavior::LoadAsGeneric;
    let warn = UnknownExtensionTypeBehavior::WarnAndLoadAsStorage;
    assert_eq!(unknown_extension_behavior(Some("load_as_storage")), (load_as_storage, false));
    assert_eq!(unknown_extension_behavior(Some("load_as_extension")), (load_as_generic, false));
    assert_eq!(unknown_extension_behavior(Some("")), (warn, false));
    assert_eq!(unknown_extension_behavior(None), (warn, false));
    assert_eq!(unknown_extension_behavior(Some("Load_As_Storage")), (warn, true));
    assert_eq!(check_allow_importing_interval_as_struct("month_day_nano_interval", true), Ok(()));
    assert_eq!(
        check_allow_importing_interval_as_struct("month_day_nano_interval", false),
        Err(ApolloError::ComputeError(
            "could not import from `month_day_nano_interval` type. Hint: This can be imported by setting APOLLO_IMPORT_INTERVAL_AS_STRUCT=1 in the environment. Note however that this is unstable functionality that may change at any time."
                .to_string()
        ))
    );
}

#[test]
fn startup_happens_once() {
    let mut registry = StartupRegistry::new();
    assert!(!registry.initialized());
    assert_eq!(
        registry.register_startup_deps(true, Some("load_as_extension")),
        Some(StartupPlan {
            catch_keyboard_interrupt: true,
            behavior: UnknownExtensionTypeBehavior::LoadAsGeneric,
            warn_invalid_behavior: false,
        })
    );
    assert!(registry.initialized());
    assert_eq!(registry.register_startup_deps(false, Some("junk")), None);
    assert_eq!(registry.register_startup_deps(true, None), None);
    let mut other = StartupRegistry::new();
    assert_eq!(
        other.register_startup_deps(false, Some("junk")),
        Some(StartupPlan {
            catch_keyboard_interrupt: false,
            behavior: UnknownExtensionTypeBehavior::WarnAndLoadAsStorage,
            warn_invalid_behavior: true,
        })
    );
}

fn quiet(_text: &str, _warning: ApolloWarning) {}

fn loud(text: &str, warning: ApolloWarning) {
    println!("{}", format_warning(text, warning));
}

#[test]
fn the_warning_function_that_was_set_last_is_in_force() {
    type WarningFunction = fn(&str, ApolloWarning);
    let mut registry: WarningRegistry<WarningFunction> = WarningRegistry::new(quiet);
    assert!(get_warning_function(&registry) == quiet as WarningFunction);
    set_warning_function(&mut registry, loud);
    assert!(get_warning_function(&registry) == loud as WarningFunction);
    set_warning_function(&mut registry, quiet);
    set_warning_function(&mut registry, loud);
    let f = get_warning_function(&registry);
    f("careful", ApolloWarning::UserWarning);
    assert_eq!(format_warning("old api", ApolloWarning::Deprecation), "Deprecation: old api");
    assert_eq!(
        format_warning("x", ApolloWarning::MapWithoutReturnDtypeWarning),
        "MapWithoutReturnDtypeWarning: x"
    );
}

#[test]
fn predicates_are_handed_over_as_bytes() {
    assert_eq!(serialize(Ok(vec![1, 2])), Ok(Some(vec![1, 2])));
    assert_eq!(serialize(Ok(Vec::new())), Ok(Some(Vec::new())));
    assert_eq!(
        serialize(Err(ApolloError::ComputeError("x".to_string()))),
        Err(ApolloError::ComputeError("x".to_string()))
    );
}

fn keep(df: DataFrame) -> ApolloResult<DataFrame> {
    Ok(df)
}

fn same_schema(_input: &Schema) -> ApolloResult<Schema> {
    Ok(Schema::new())
}

struct Counting {
    calls: usize,
}

impl DataFrameUdfMut for Counting {
    fn call_udf(&mut self, df: DataFrame) -> ApolloResult<DataFrame> {
        self.calls += 1;
        Ok(df)
    }
}

#[test]
fn functions_of_the_caller() {
    let df = DataFrame::empty_with_height(3);
    assert_eq!(keep.call_udf(df.clone()).unwrap().height(), 3);
    assert_eq!(keep.display_str(), "dyn DataFrameUdf");
    assert_eq!(same_schema.get_schema(&Schema::new()).unwrap().len(), 0);
    let mut c = Counting { calls: 0 };
    assert!(c.call_udf(df.clone()).is_ok());
    assert!(c.call_udf(df).is_ok());
    assert_eq!(c.calls, 2);
    assert_eq!(display_udf_mut(), "dyn DataFrameUdfMut");
    assert_eq!(display_udf_schema(), "dyn UdfSchema");
}
