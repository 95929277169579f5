use pipewire_native::atob;
use pipewire_native::conf::is_valid_name;
use pipewire_native::dict::Dict;
use pipewire_native::error::Error;
use pipewire_native::interface::cpu::{CpuArch, CpuFlags, CpuImpl, CpuVm};
use pipewire_native::interface::log::{should_log, LogLevel, LogTopic};
use pipewire_native::interface::system::{from_result, result_from};
use pipewire_native::interface::thread::thread_stack_size;
use pipewire_native::param::ParamType;
use pipewire_native::pod::pad_8;
use pipewire_native::pod::types::{PropertyFlags, Type, PROPERTY_FLAG_DONT_FIXATE};

#[test]
fn test_atob() {
    assert!(atob(&"true".to_string()));
    assert!(atob(&"1".to_string()));
    assert!(!atob(&"false".to_string()));
    assert!(!atob(&"yes".to_string()));
}

#[test]
fn test_pad_8() {
    assert_eq!(pad_8(0), 0);
    assert_eq!(pad_8(1), 7);
    assert_eq!(pad_8(6), 2);
    assert_eq!(pad_8(8), 0);
    assert_eq!(pad_8(13), 3);
}

#[test]
fn test_type_codes() {
    assert_eq!(Type::NoneVal.to_u32(), 1);
    assert_eq!(Type::Pod.to_u32(), 20);
    assert_eq!(Type::from_u32(8).unwrap(), Type::String);
    assert_eq!(Type::from_u32(21), None);

    assert_eq!(ParamType::Props.to_u32(), 2);
    assert_eq!(ParamType::from_u32(17).unwrap(), ParamType::Tag);
    assert_eq!(ParamType::from_u32(18), None);
}

#[test]
fn test_property_flags() {
    // The composite literal from the external contract is surfaced as-is.
    assert_eq!(PROPERTY_FLAG_DONT_FIXATE, 0xF);
    assert_eq!(PropertyFlags::from_bits(0x5), Some(PropertyFlags(0x5)));
    assert_eq!(PropertyFlags::from_bits(0x10), None);
    assert_eq!(PropertyFlags(0x9).bits(), 0x9);
}

#[test]
fn test_dict_first_match() {
    let d = Dict::new(vec![
        ("a".to_string(), "1".to_string()),
        ("b".to_string(), "2".to_string()),
        ("a".to_string(), "3".to_string()),
    ]);
    assert_eq!(d.len(), 3);
    assert_eq!(d.lookup("a"), Some(&"1".to_string()));
    assert_eq!(d.lookup("b"), Some(&"2".to_string()));
    assert_eq!(d.lookup("A"), None);
    assert_eq!(d.items()[2].1, "3");
}

#[test]
fn test_log_filtering() {
    assert!(should_log(LogLevel::Error, LogLevel::Warn, None));
    assert!(should_log(LogLevel::Warn, LogLevel::Warn, None));
    assert!(!should_log(LogLevel::Info, LogLevel::Warn, None));

    let quiet = LogTopic { topic: "t".to_string(), level: LogLevel::Error, has_custom_level: true };
    assert!(!should_log(LogLevel::Warn, LogLevel::Trace, Some(&quiet)));

    let inherit =
        LogTopic { topic: "t".to_string(), level: LogLevel::Error, has_custom_level: false };
    assert!(should_log(LogLevel::Warn, LogLevel::Trace, Some(&inherit)));

    assert_eq!(LogLevel::parse("E"), Some(LogLevel::Error));
    assert_eq!(LogLevel::parse("4"), Some(LogLevel::Debug));
    assert_eq!(LogLevel::parse("x"), None);

    assert_eq!(LogLevel::from_u32(2), Some(LogLevel::Warn));
    assert_eq!(LogLevel::from_u32(6), None);
    assert_eq!(LogLevel::Trace.to_u32(), 5);
}

#[test]
fn test_cpu_model() {
    let flags = CpuFlags::from_bits(CpuArch::X86, 0x18);
    assert_eq!(flags.bits(), 0x18);

    let mut cpu = CpuImpl {
        flags,
        count: 8,
        max_align: 64,
        vm_type: CpuVm::Kvm,
        zero_denormals_enabled: false,
    };
    assert_eq!(cpu.get_count(), 8);
    assert_eq!(cpu.get_max_align(), 64);
    assert_eq!(cpu.get_vm_type(), CpuVm::Kvm);
    assert_eq!(cpu.get_vm_type().name(), "kvm");
    assert_eq!(cpu.force_flags(CpuFlags::from_bits(CpuArch::X86, 0x1)), 0);
    assert_eq!(cpu.get_flags().bits(), 0x1);
    assert_eq!(cpu.zero_denormals(true), 0);
    assert!(cpu.zero_denormals_enabled);
}

#[test]
fn test_result_conversions() {
    assert_eq!(result_from(3), Ok(3));
    assert_eq!(result_from(-5), Err(Error::Errno(5)));
    assert_eq!(from_result(Ok(3)), 3);
    assert_eq!(from_result(Err(Error::Errno(5))), -5);
    assert_eq!(from_result(Err(Error::Invalid)), -1);
}

#[test]
fn test_thread_stack_size() {
    let props = Dict::new(vec![("thread.stack-size".to_string(), "65536".to_string())]);
    assert_eq!(thread_stack_size(&props), Some(65536));

    let plus = Dict::new(vec![("thread.stack-size".to_string(), "+65536".to_string())]);
    assert_eq!(thread_stack_size(&plus), Some(65536));

    let junk = Dict::new(vec![("thread.stack-size".to_string(), "lots".to_string())]);
    assert_eq!(thread_stack_size(&junk), None);

    let big = Dict::new(vec![("thread.stack-size".to_string(), "4294967296".to_string())]);
    assert_eq!(thread_stack_size(&big), None);

    assert_eq!(thread_stack_size(&Dict::new(Vec::new())), None);
}

#[test]
fn test_config_names() {
    assert!(is_valid_name("null"));
    assert!(is_valid_name("client.conf"));
    assert!(is_valid_name(".conf"));
    assert!(!is_valid_name("client"));
    assert!(!is_valid_name("conf"));
}
