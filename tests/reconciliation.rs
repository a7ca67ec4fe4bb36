use riot_sys::catalog::default_catalog;
use riot_sys::patch::{
    call_policy, constify_families, disambiguate, finish_patch, foreign_abi_table,
    patch_transpiled, respell, rewrite_function_headers, CallPolicy, PatchError,
};

const FOREIGN: &str = "unsafe extern \"C\" fn ";

#[test]
fn callback_keeps_foreign_convention() {
    let catalog = default_catalog();
    let text = format!(
        "{}helper(x: u32) -> u32 {{ x }}\n#[no_mangle]\npub {}_evtimer_msg_handler(ev: *mut event_t) {{ helper(1); }}\n",
        FOREIGN, FOREIGN
    );
    let out = patch_transpiled(&text, &catalog).unwrap();
    assert!(out.contains("pub unsafe extern \"C\" fn _evtimer_msg_handler(ev: *mut event_t)"));
    assert!(out.contains("pub unsafe fn helper(x: u32)"));
    assert!(!out.contains("extern \"C\" fn helper"));
}

#[test]
fn decision_table_assigns_each_listed_name() {
    let catalog = default_catalog();
    let table = foreign_abi_table();
    assert_eq!(table.len(), 5);
    for name in &table {
        assert_eq!(call_policy(name, &catalog), CallPolicy::ForeignAbi);
    }
    assert_eq!(call_policy("init_MUTEX_INIT", &catalog), CallPolicy::ConstFn);
    assert_eq!(call_policy("init_SOCK_IPV6_EP_ANY", &catalog), CallPolicy::ConstFn);
    assert_eq!(call_policy("init_BTN{}_PIN", &catalog), CallPolicy::PublicUnsafe);
    assert_eq!(call_policy("init_", &catalog), CallPolicy::PublicUnsafe);
    assert_eq!(call_policy("_evtimer_msg_handler2", &catalog), CallPolicy::PublicUnsafe);
    assert_eq!(call_policy("gpio_init", &catalog), CallPolicy::PublicUnsafe);
}

#[test]
fn headers_follow_table_wherever_they_stand() {
    let catalog = default_catalog();
    let text = format!(
        "{f}a() {{}}\n{f}__NVIC_SetPriority(p: i32) {{}}\npub {f}init_MUTEX_INIT() -> mutex_t {{ x }}\n{f}__NVIC_SetPriority(q: i32) {{}}\n",
        f = FOREIGN
    );
    let out = rewrite_function_headers(&text, &catalog).unwrap();
    assert_eq!(
        out,
        format!(
            "pub unsafe fn a() {{}}\n{f}__NVIC_SetPriority(p: i32) {{}}\npub const fn init_MUTEX_INIT() -> mutex_t {{ x }}\n{f}__NVIC_SetPriority(q: i32) {{}}\n",
            f = FOREIGN
        )
    );
}

#[test]
fn header_without_parameters_is_rejected() {
    let catalog = default_catalog();
    let text = format!("{}broken", FOREIGN);
    assert_eq!(rewrite_function_headers(&text, &catalog), Err(PatchError::MissingParameterList));
    assert_eq!(patch_transpiled(&text, &catalog), Err(PatchError::MissingParameterList));
    assert_eq!(finish_patch(&text, &catalog), Err(PatchError::MissingParameterList));
}

#[test]
fn colliding_identifiers_renamed_everywhere() {
    let text = "static mut GCLK: u32 = 0;\nfn f(GCLK: u32) -> u32 { GCLK + GCLK_ID + MY_GCLK + SERCOM3 + SERCOM33 + SERCOMX }\nlet s = SERCOM0;";
    let out = disambiguate(text);
    assert_eq!(
        out,
        "static mut GLOBAL_GCLK: u32 = 0;\nfn f(GLOBAL_GCLK: u32) -> u32 { GLOBAL_GCLK + GCLK_ID + MY_GCLK + GLOBAL_SERCOM3 + SERCOM33 + SERCOMX }\nlet s = GLOBAL_SERCOM0;"
    );
    assert!(!out.replace("GLOBAL_GCLK", "").contains("GCLK:"));
}

#[test]
fn respelling_rules() {
    let text = "use ::libc;\nfn a() { asm!(\"nop\"); }\n    #[no_mangle]\n    fn ext(x: i32);\n";
    assert_eq!(
        respell(text),
        "fn a() { llvm_asm!(\"nop\"); }\n    #[no_mangle]\n    pub fn ext(x: i32);\n"
    );
    assert_eq!(respell("no rules apply"), "no rules apply");
}

#[test]
fn family_statics_become_constants() {
    let catalog = default_catalog();
    let text = "#[no_mangle]\npub static mut BTNn_PIN: [gpio_t; 2] = [1, 2];\n#[no_mangle]\npub static mut OTHER: u8 = 0;\n";
    assert_eq!(
        constify_families(text, &catalog),
        "pub const BTNn_PIN: [gpio_t; 2] = [1, 2];\n#[no_mangle]\npub static mut OTHER: u8 = 0;\n"
    );
}

#[test]
fn whole_pass_is_repeatable() {
    let catalog = default_catalog();
    let text = format!(
        "use ::libc;\n#[no_mangle]\npub static mut BTNn_MODE: [gpio_direction_t; 0] = [];\n{}x(GCLK: u8) {{ asm!(\"\"); }}\n",
        FOREIGN
    );
    let once = patch_transpiled(&text, &catalog).unwrap();
    assert_eq!(once, patch_transpiled(&text, &catalog).unwrap());
    assert_eq!(
        once,
        "pub const BTNn_MODE: [gpio_direction_t; 0] = [];\npub unsafe fn x(GLOBAL_GCLK: u8) { llvm_asm!(\"\"); }\n"
    );
}

#[test]
fn text_matching_no_rule_passes_through() {
    let catalog = default_catalog();
    let text = "pub const X: u32 = 1;\nfn local() {}\n";
    assert_eq!(patch_transpiled(text, &catalog), Ok(text.to_string()));
    assert_eq!(disambiguate(text), text);
}
