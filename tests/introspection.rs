use riot_sys::toolchain::{
    define_for_upper, environment_from_explicit, environment_from_record, feature_define, feature_defines,
    filter_flags, flags_before_marker, introspect, is_denied_flag, split_modules, ConfigError,
};

fn strings(v: &[&str]) -> Vec<String> {
    v.iter().map(|s| s.to_string()).collect()
}

#[test]
fn record_flags_stop_at_compile_marker() {
    let args = strings(&["cc", "-Wall", "-O2", "-c", "in.c", "-o", "out.o"]);
    assert_eq!(flags_before_marker(&args), strings(&["-Wall", "-O2"]));
    let env = environment_from_record(&args, Some("")).unwrap();
    assert_eq!(env.compiler_path, "cc");
    assert_eq!(env.flag_sequence, strings(&["-Wall", "-O2"]));
    assert!(env.feature_defines.is_empty());
    assert_eq!(env.flag_string, "-Wall -O2");
}

#[test]
fn record_without_marker_keeps_every_argument() {
    let args = strings(&["gcc", "-g", "-Os"]);
    assert_eq!(flags_before_marker(&args), strings(&["-g", "-Os"]));
    assert!(flags_before_marker(&Vec::new()).is_empty());
}

#[test]
fn deny_list_is_filtered_in_order() {
    let input = strings(&[
        "-Wall", "-Werror", "-MD", "-O2", "-Wall", "-mcmodel=medlow", "-nostartfiles", "-g",
        "-fno-delete-null-pointer-checks", "-msmall-data-limit=8", "-Wformat-overflow",
        "-Wformat-truncation", "-mno-thumb-interwork",
    ]);
    assert_eq!(filter_flags(&input), strings(&["-Wall", "-O2", "-Wall", "-g"]));
    assert!(is_denied_flag("-Werror"));
    assert!(!is_denied_flag("-Werror=format"));
    assert!(!is_denied_flag("-MMD"));
}

#[test]
fn module_defines_are_upper_case_identifiers() {
    assert_eq!(
        feature_define("boards_common_samdx1-arduino-bootloader"),
        "-DMODULE_BOARDS_COMMON_SAMDX1_ARDUINO_BOOTLOADER"
    );
    assert_eq!(split_modules("core  gnrc "), strings(&["core", "gnrc"]));
    assert_eq!(feature_defines("xtimer ztimer-core"), strings(&["-DMODULE_XTIMER", "-DMODULE_ZTIMER_CORE"]));
}

#[test]
fn record_environment_appends_module_defines() {
    let args = strings(&["arm-none-eabi-gcc", "-DX=a b", "-Werror", "-c", "x.c"]);
    let env = environment_from_record(&args, Some("periph_gpio core")).unwrap();
    assert_eq!(env.compiler_path, "arm-none-eabi-gcc");
    assert!(env.flag_string.ends_with(" -Werror -DMODULE_PERIPH_GPIO -DMODULE_CORE"));
    assert!(env.flag_string.starts_with('\'') || env.flag_string.starts_with('"'));
    assert_eq!(
        env.flag_sequence,
        strings(&["-DX=a b", "-DMODULE_PERIPH_GPIO", "-DMODULE_CORE"])
    );
    assert_eq!(env.feature_defines, strings(&["-DMODULE_PERIPH_GPIO", "-DMODULE_CORE"]));
}

#[test]
fn explicit_environment_splits_shell_words() {
    let env = environment_from_explicit("clang", "-O2 \"-DNAME=x y\" -MD -g").unwrap();
    assert_eq!(env.compiler_path, "clang");
    assert_eq!(env.flag_sequence, strings(&["-O2", "-DNAME=x y", "-g"]));
    assert!(env.feature_defines.is_empty());
}

#[test]
fn configuration_errors() {
    let args = strings(&["cc", "-c"]);
    assert!(matches!(environment_from_record(&args, None), Err(ConfigError::MissingModules)));
    assert!(matches!(environment_from_record(&Vec::new(), Some("")), Err(ConfigError::EmptyRecord)));
    assert!(matches!(environment_from_explicit("cc", "-DX='open"), Err(ConfigError::UnsplittableFlags)));
    assert!(matches!(introspect(None, None, None, None), Err(ConfigError::NoInput)));
    assert!(matches!(introspect(None, None, Some("cc"), None), Err(ConfigError::MissingFlags)));
    assert!(matches!(introspect(None, None, None, Some("-O2")), Err(ConfigError::MissingCompiler)));
    let none: Vec<Vec<String>> = Vec::new();
    assert!(matches!(introspect(Some(&none), Some(""), Some("cc"), Some("")), Err(ConfigError::NoRecords)));
}

#[test]
fn record_form_is_preferred_and_first_record_used() {
    let records = vec![strings(&["cc", "-O1", "-c"]), strings(&["cc", "-O3", "-c"])];
    let env = introspect(Some(&records), Some("core"), Some("clang"), Some("-O0")).unwrap();
    assert_eq!(env.compiler_path, "cc");
    assert_eq!(env.flag_sequence, strings(&["-O1", "-DMODULE_CORE"]));
    let env = introspect(None, None, Some("clang"), Some("-O0")).unwrap();
    assert_eq!(env.flag_sequence, strings(&["-O0"]));
}

#[test]
fn every_non_identifier_character_is_normalized() {
    assert_eq!(define_for_upper("A.B/C-D_9"), "-DMODULE_A_B_C_D_9");
    assert_eq!(define_for_upper(""), "-DMODULE_");
    assert_eq!(feature_define("cpu.stm32+f4"), "-DMODULE_CPU_STM32_F4");
}
