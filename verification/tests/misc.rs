use laylay::errors::{ClientError, ClientErrorKind, ServerErrorKind, ServerErrors};
use laylay::info::{Cpu, Info};
use laylay::scene::light::LightKind;
use laylay::version::{decimal_text, Version};

fn version(major: u32, minor: u32, patch: u32) -> Version {
    Version {
        major,
        minor,
        patch,
        branch: "main".to_string(),
        commit: "0123abc".to_string(),
        target: "x86_64-unknown-linux-gnu".to_string(),
    }
}

#[test]
fn higher_goes_by_major_then_minor_then_patch() {
    assert!(version(2, 0, 0).higher(&version(1, 9, 9)));
    assert!(version(1, 3, 0).higher(&version(1, 2, 9)));
    assert!(version(1, 2, 4).higher(&version(1, 2, 3)));
    assert!(!version(1, 2, 3).higher(&version(1, 2, 3)));
    assert!(!version(1, 2, 3).higher(&version(1, 2, 4)));
    assert!(!version(1, 9, 9).higher(&version(2, 0, 0)));
    assert!(!version(1, 0, 9).higher(&version(1, 1, 0)));
    assert!(!version(0, 9, 0).higher(&version(1, 0, 0)));
}

#[test]
fn higher_ignores_where_the_build_came_from() {
    let mut other = version(1, 2, 3);
    other.branch = "dev".to_string();
    other.target = "aarch64-linux-android".to_string();
    assert!(!version(1, 2, 3).higher(&other));
    assert!(!other.higher(&version(1, 2, 3)));
}

#[test]
fn internal_error_keeps_the_message() {
    let e = ServerErrors::internal("client did not send greeting");
    assert_eq!(e.kind(), ServerErrorKind::Internal);
    assert_eq!(e.msg(), "client did not send greeting");
}

#[test]
fn db_error_joins_message_and_cause() {
    let e = ServerErrors::db("database is locked", "get user id");
    assert_eq!(e.kind(), ServerErrorKind::Db);
    assert_eq!(e.msg(), "get user id -> database is locked");
}

#[test]
fn errors_of_each_kind() {
    assert_eq!(ServerErrors::new(ServerErrorKind::Io, "broken pipe").kind(), ServerErrorKind::Io);
    assert_eq!(ServerErrors::new(ServerErrorKind::Io, "broken pipe").msg(), "broken pipe");
    for kind in [
        ClientErrorKind::Io,
        ClientErrorKind::Xr,
        ClientErrorKind::Internal,
        ClientErrorKind::Tracing,
    ] {
        let e = ClientError::new(kind, "no runtime");
        assert_eq!(e.kind(), kind);
        assert_eq!(e.msg(), "no runtime");
    }
}

#[test]
fn info_is_plain_data() {
    let info = Info {
        name: Some("Linux".to_string()),
        host_name: None,
        kernel_version: Some("6.1".to_string()),
        os_version: None,
        cpu: Cpu {
            name: "cpu0".to_string(),
            vendor_id: "GenuineIntel".to_string(),
            brand: "Core".to_string(),
            freq: 3200,
        },
        memory: 1 << 34,
    };
    assert_eq!(info.cpu.freq, 3200);
    assert_eq!(info.memory, 17_179_869_184);
    assert_eq!(info.host_name, None);
}

#[test]
fn light_kinds_have_their_codes() {
    assert_eq!(LightKind::Off.code(), 0);
    assert_eq!(LightKind::Directional.code(), 1);
    assert_eq!(LightKind::Spot.code(), 2);
    assert_eq!(LightKind::Point.code(), 3);
}

#[test]
fn numbers_in_decimal() {
    assert_eq!(decimal_text(0), "0");
    assert_eq!(decimal_text(7), "7");
    assert_eq!(decimal_text(10), "10");
    assert_eq!(decimal_text(1905), "1905");
    assert_eq!(decimal_text(u32::MAX), "4294967295");
}

#[test]
fn version_as_text() {
    assert_eq!(version(1, 2, 3).to_text(), "1.2.3 x86_64-unknown-linux-gnu");
    assert_eq!(version(0, 10, 0).to_text(), "0.10.0 x86_64-unknown-linux-gnu");
}

#[test]
fn errors_as_text() {
    assert_eq!(ServerErrors::internal("no greeting").to_text(), "Internal no greeting");
    assert_eq!(ServerErrors::db("locked", "get user id").to_text(), "Db get user id -> locked");
    assert_eq!(ServerErrors::new(ServerErrorKind::Io, "eof").to_text(), "Io eof");
    assert_eq!(ClientError::new(ClientErrorKind::Xr, "no loader").to_text(), "Xr: no loader");
    assert_eq!(ClientError::new(ClientErrorKind::Io, "eof").to_text(), "Io: eof");
    assert_eq!(ClientError::new(ClientErrorKind::Internal, "x").to_text(), "Internal: x");
    assert_eq!(ClientError::new(ClientErrorKind::Tracing, "set").to_text(), "Tracing: set");
    assert_eq!(ClientErrorKind::Tracing.name(), "Tracing");
    assert_eq!(ServerErrorKind::Db.name(), "Db");
}
