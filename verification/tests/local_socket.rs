use interprocess::error::{IoError, IoErrorKind};
use interprocess::local_socket::{
    name_to_addr, name_type_support_query, resolve, AddressKind, LocalSocketName,
    NameTypeSupport, SocketAddress, NAME_TYPE_ALWAYS_SUPPORTED, SUN_PATH_LEN,
};

fn name(bytes: &[u8], namespaced: bool) -> LocalSocketName {
    LocalSocketName::from_raw_parts(bytes.to_vec(), namespaced)
}

const EVERY_SUPPORT: [NameTypeSupport; 3] =
    [NameTypeSupport::OnlyPaths, NameTypeSupport::OnlyNamespaced, NameTypeSupport::Both];

#[test]
fn this_build_supports_both_kinds_of_names() {
    assert_eq!(name_type_support_query(), NameTypeSupport::Both);
    assert_eq!(name_type_support_query(), NAME_TYPE_ALWAYS_SUPPORTED);
    assert!(name_type_support_query().paths_supported());
    assert!(name_type_support_query().namespace_supported());
}

#[test]
fn the_support_tells_which_kinds_are_accepted() {
    assert!(NameTypeSupport::OnlyPaths.paths_supported());
    assert!(!NameTypeSupport::OnlyPaths.namespace_supported());
    assert!(!NameTypeSupport::OnlyNamespaced.paths_supported());
    assert!(NameTypeSupport::OnlyNamespaced.namespace_supported());
    assert!(NameTypeSupport::Both.paths_supported());
    assert!(NameTypeSupport::Both.namespace_supported());
}

#[test]
fn a_name_keeps_its_bytes_and_its_flag() {
    let n = name(b"/tmp/example.sock", false);
    assert!(n.is_path());
    assert!(!n.is_namespaced());
    assert_eq!(n.inner(), b"/tmp/example.sock");
    assert_eq!(name(b"example", true).into_inner(), b"example".to_vec());
    assert!(name(b"example", true).is_namespaced());
}

#[test]
fn a_path_resolves_to_its_very_bytes() {
    let r = name_to_addr(name(b"/tmp/../tmp/./example.sock", false));
    assert_eq!(
        r,
        Ok(SocketAddress {
            kind: AddressKind::Pathname,
            name: b"/tmp/../tmp/./example.sock".to_vec(),
        })
    );
}

#[test]
fn a_namespaced_name_resolves_into_the_namespace() {
    let r = name_to_addr(name(b"exa\0mple", true));
    assert_eq!(r, Ok(SocketAddress { kind: AddressKind::Abstract, name: b"exa\0mple".to_vec() }));
}

#[test]
fn resolution_agrees_with_the_support() {
    for support in EVERY_SUPPORT {
        let namespaced = resolve(name(b"example", true), support);
        assert_eq!(namespaced.is_ok(), support.namespace_supported());
        if !support.namespace_supported() {
            assert_eq!(namespaced, Err(IoError::new(IoErrorKind::Unsupported)));
        }
        let path = resolve(name(b"/tmp/example.sock", false), support);
        assert_eq!(
            path,
            Ok(SocketAddress { kind: AddressKind::Pathname, name: b"/tmp/example.sock".to_vec() })
        );
    }
}

#[test]
fn a_malformed_name_is_refused() {
    let zero_in_path = name_to_addr(name(b"/tmp/exa\0mple", false));
    assert_eq!(zero_in_path, Err(IoError::new(IoErrorKind::InvalidInput)));

    let longest = vec![b'a'; SUN_PATH_LEN - 1];
    let too_long = vec![b'a'; SUN_PATH_LEN];
    assert_eq!(SUN_PATH_LEN, 108);
    for namespaced in [false, true] {
        assert!(name_to_addr(name(&longest, namespaced)).is_ok());
        assert_eq!(
            name_to_addr(name(&too_long, namespaced)),
            Err(IoError::new(IoErrorKind::InvalidInput))
        );
    }
    assert!(name_to_addr(name(b"", false)).is_ok());
    assert!(name_to_addr(name(b"", true)).is_ok());
}

#[test]
fn an_unsupported_kind_is_refused_before_the_name_is_looked_at() {
    let too_long = vec![b'a'; SUN_PATH_LEN];
    let r = resolve(name(&too_long, true), NameTypeSupport::OnlyPaths);
    assert_eq!(r, Err(IoError::new(IoErrorKind::Unsupported)));
}
