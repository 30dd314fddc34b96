use wxwork_help::hooks::HookRegistry;
use wxwork_help::strings::{nul_terminated_len, StrError, WString};
use wxwork_help::strings::String as FString;
use wxwork_help::WxError;

#[test]
fn hook_install_redirects_dispatch() {
    let mut reg = HookRegistry::new(2);
    assert_eq!(reg.dispatch_target(0, 0x100), 0x100);
    reg.install(0, 0x100, 0x200, true).unwrap();
    assert_eq!(reg.dispatch_target(0, 0x100), 0x200);
    assert_eq!(reg.call_original_target(0), Some(0x100));
    // the other slot is untouched
    assert_eq!(reg.dispatch_target(1, 0x300), 0x300);
    assert_eq!(reg.call_original_target(1), None);
}

#[test]
fn hook_disable_restores_entry_exactly() {
    let mut reg = HookRegistry::new(1);
    reg.install(0, 0x100, 0x200, true).unwrap();
    reg.disable(0).unwrap();
    assert_eq!(reg.dispatch_target(0, 0x100), 0x100);
    reg.enable(0).unwrap();
    assert_eq!(reg.dispatch_target(0, 0x100), 0x200);
}

#[test]
fn hook_reinstall_replaces_record() {
    let mut reg = HookRegistry::new(1);
    reg.install(0, 0x100, 0x200, true).unwrap();
    reg.install(0, 0x110, 0x220, true).unwrap();
    assert_eq!(reg.dispatch_target(0, 0x110), 0x220);
    assert_eq!(reg.call_original_target(0), Some(0x110));
}

#[test]
fn hook_creation_failure_leaves_slot_untouched() {
    let mut reg = HookRegistry::new(1);
    reg.install(0, 0x100, 0x200, true).unwrap();
    let r = reg.install(0, 0x110, 0x220, false);
    assert_eq!(r, Err(WxError::HookCreationFailed));
    assert_eq!(reg.dispatch_target(0, 0x100), 0x200);
    assert_eq!(reg.call_original_target(0), Some(0x100));
}

#[test]
fn hook_enable_on_empty_slot_fails() {
    let mut reg = HookRegistry::new(1);
    assert_eq!(reg.enable(0), Err(WxError::NotFound));
    assert_eq!(reg.disable(0), Err(WxError::NotFound));
}

#[test]
fn ansi_string_round_trip() {
    let a = FString::from_str("hello");
    assert_eq!(a.as_bytes(), b"hello");
    assert_eq!(a.to_string().unwrap(), "hello");
}

#[test]
fn ansi_string_new_is_empty() {
    let a = FString::new();
    assert_eq!(a.as_bytes(), b"");
    assert_eq!(a.to_string().unwrap(), "");
}

#[test]
fn ansi_string_long_contents() {
    let long = "a string well past the sixteen-byte inline buffer";
    let a = FString::from_str(long);
    assert_eq!(a.as_bytes(), long.as_bytes());
    assert_eq!(a.to_string().unwrap(), long);
}

#[test]
fn ansi_string_multibyte_utf8() {
    let a = FString::from_str("café");
    assert_eq!(a.as_bytes(), "café".as_bytes());
    assert_eq!(a.to_string().unwrap(), "café");
}

#[test]
fn ansi_string_invalid_utf8_reported() {
    let a = FString::from_bytes(&[0x66, 0xFF, 0x67]);
    assert_eq!(a.as_bytes(), &[0x66, 0xFF, 0x67]);
    assert_eq!(a.to_string(), Err(StrError::InvalidUtf8));
}

#[test]
fn ansi_string_from_utf16_decodes() {
    // a surrogate pair: decoding is real transcoding, not a copy
    let units: Vec<u16> = "😀".encode_utf16().collect();
    assert_eq!(units.len(), 2);
    let a = FString::from_utf16(&units).unwrap();
    assert_eq!(a.as_bytes(), "😀".as_bytes());
}

#[test]
fn ansi_string_from_utf16_rejects_lone_surrogate() {
    assert_eq!(FString::from_utf16(&[0xD800]).unwrap_err(), StrError::InvalidUtf16);
}

#[test]
fn ansi_string_set_and_clear() {
    let mut a = FString::from_str("first");
    a.set_str("second");
    assert_eq!(a.as_bytes(), b"second");
    a.set_bytes(b"third");
    assert_eq!(a.as_bytes(), b"third");
    a.clear();
    assert_eq!(a.as_bytes(), b"");
}

#[test]
fn wstring_encodes_utf16() {
    let w = WString::from_str("é");
    assert_eq!(w.as_utf16(), &[0xE9u16]);
    let w2 = WString::from_str("😀");
    assert_eq!(w2.as_utf16().len(), 2);
    assert_eq!(w2.to_string().unwrap(), "😀");
}

#[test]
fn wstring_round_trip() {
    let w = WString::from_str("hello wide world");
    assert_eq!(w.to_string().unwrap(), "hello wide world");
}

#[test]
fn wstring_from_utf16_stores_units() {
    let units = [0x48u16, 0x69u16];
    let w = WString::from_utf16(&units);
    assert_eq!(w.as_utf16(), &units);
    assert_eq!(w.to_string().unwrap(), "Hi");
}

#[test]
fn wstring_reports_invalid_utf16() {
    let w = WString::from_utf16(&[0xDC00]);
    assert_eq!(w.to_string(), Err(StrError::InvalidUtf16));
}

#[test]
fn wstring_set_and_clear() {
    let mut w = WString::new();
    assert_eq!(w.as_utf16(), &[] as &[u16]);
    w.set_str("abc");
    assert_eq!(w.as_utf16(), &[0x61u16, 0x62, 0x63]);
    w.set_utf16(&[0x7Au16]);
    assert_eq!(w.as_utf16(), &[0x7Au16]);
    w.clear();
    assert_eq!(w.as_utf16(), &[] as &[u16]);
}

#[test]
fn nul_len_finds_first_null() {
    assert_eq!(nul_terminated_len(&[0x61, 0x62, 0, 0x63, 0]), 2);
    assert_eq!(nul_terminated_len(&[0, 0x61]), 0);
    // a buffer without a null is treated as empty
    assert_eq!(nul_terminated_len(&[0x61, 0x62]), 0);
    assert_eq!(nul_terminated_len(&[]), 0);
}
