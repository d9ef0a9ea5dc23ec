use fls::node_admin::{DepsInstaller, DiskStats, FileInfo, MemoryStats, NodeAdmin, NodeHealth, PackageManager};
use fls::panel::{AuthService, Claims, JwtHandler, PanelError, User, TOKEN_LIFETIME};
use fls::rbac::{get_role_by_name, get_system_roles, has_permission, user_has_permission, AuthzError, Permission, Role};
use fls::tunnels::{Connection, Consumer, IntranetPenetration, Provider, TunnelConfig};

#[test]
fn admin_has_every_permission_and_viewer_reads_only() {
    let roles = get_system_roles();
    assert_eq!(roles.len(), 3);
    assert_eq!(roles[0].name, "admin");
    assert_eq!(roles[0].permissions.len(), 23);
    assert!(has_permission(&roles[0], &Permission::SystemConfig));
    assert!(has_permission(&roles[1], &Permission::ServiceRestart));
    assert!(!has_permission(&roles[1], &Permission::ServiceDelete));
    assert!(!has_permission(&roles[2], &Permission::ServiceStart));
    assert!(has_permission(&roles[2], &Permission::FileRead));
    for p in &roles[2].permissions {
        assert!(has_permission(&roles[1], p));
    }
    for p in &roles[1].permissions {
        assert!(has_permission(&roles[0], p));
    }
}

#[test]
fn users_have_the_permissions_of_any_role() {
    let viewer = get_role_by_name("viewer").unwrap();
    let custom = Role { name: "deployer".to_owned(), permissions: vec![Permission::ServiceStart] };
    assert!(!user_has_permission(&[viewer], &Permission::ServiceStart));
    let viewer = get_role_by_name("viewer").unwrap();
    assert!(user_has_permission(&[viewer, custom], &Permission::ServiceStart));
    assert!(!user_has_permission(&[], &Permission::NodeList));
}

#[test]
fn roles_are_found_by_exact_name() {
    assert_eq!(get_role_by_name("operator").unwrap().permissions.len(), 14);
    assert!(get_role_by_name("Admin").is_none());
    assert!(get_role_by_name("root").is_none());
    assert_eq!(AuthzError("no".to_owned()).text(), "Authorization error: no");
}

#[test]
fn registered_users_sign_in_and_are_found_from_their_claims() {
    let mut service = AuthService::new("SECRET-REDACTED");
    assert!(matches!(service.authenticate("ann", "pw", 1_000).unwrap_err(), PanelError::Auth(m) if m == "User not found"));
    service.register("ann", "ann@example.com", vec!["admin".to_owned()]).unwrap();
    match service.register("ann", "other@example.com", Vec::new()) {
        Err(PanelError::Auth(m)) => assert_eq!(m, "User already exists"),
        _ => panic!("registered twice"),
    }
    let claims = service.authenticate("ann", "pw", 1_000).unwrap();
    assert_eq!(claims.username, "ann");
    assert_eq!(claims.roles, vec!["admin".to_owned()]);
    assert_eq!(claims.exp, 1_000 + 86_400);
    assert_eq!(claims.sub.len(), 36);
    assert_eq!(claims.sub.as_bytes()[14], b'4');
    assert_eq!(claims.sub.matches('-').count(), 4);
    let user: User = service.validate_token(&claims).unwrap();
    assert_eq!(user.email, "ann@example.com");
    assert_eq!(user.id, claims.sub);
    let stranger = Claims { sub: "x".to_owned(), username: "bob".to_owned(), roles: Vec::new(), exp: 0 };
    assert!(service.validate_token(&stranger).is_err());
}

#[test]
fn token_handler_keeps_the_secret_bytes() {
    let handler = JwtHandler::new("sécret");
    assert_eq!(handler.secret(), "sécret".as_bytes());
    let c = handler.claims_for("id", "name", &vec!["viewer".to_owned()], 5);
    assert_eq!(c.exp, 5 + TOKEN_LIFETIME);
    assert_eq!(c.sub, "id");
}

fn is_uuid_v4(s: &str) -> bool {
    let c: Vec<char> = s.chars().collect();
    c.len() == 36
        && c.iter().enumerate().all(|(i, ch)| {
            if i == 8 || i == 13 || i == 18 || i == 23 {
                *ch == '-'
            } else {
                ch.is_ascii_digit() || ('a'..='f').contains(ch)
            }
        })
        && c[14] == '4'
        && matches!(c[19], '8' | '9' | 'a' | 'b')
}

#[test]
fn tunnels_get_fresh_identifiers() {
    let p = IntranetPenetration::new("https://panel", "node-1");
    assert!(p.start().is_ok());
    let config = TunnelConfig { local_addr: "127.0.0.1:80".to_owned(), remote_addr: "0.0.0.0:9000".to_owned(), protocol: "tcp".to_owned(), auth_token: None };
    let a = p.create_tunnel(config).unwrap();
    let config = TunnelConfig { local_addr: "127.0.0.1:81".to_owned(), remote_addr: "0.0.0.0:9001".to_owned(), protocol: "tcp".to_owned(), auth_token: None };
    let b = p.create_tunnel(config).unwrap();
    assert!(is_uuid_v4(&a));
    assert!(is_uuid_v4(&b));
    assert_ne!(a, b);
    assert!(p.list_tunnels().unwrap().is_empty());
    assert!(p.close_tunnel(&a).is_ok());
    assert!(p.stop().is_ok());
    let c = Consumer::new("https://panel", "node-1");
    assert!(is_uuid_v4(&c.connect_to_tunnel("node-2", "10.0.0.2:9000", "127.0.0.1:8080").unwrap()));
    assert!(c.list_connections().unwrap().is_empty());
    assert!(Provider::new().list_tunnels().unwrap().is_empty());
    let conn = Connection { id: "c".to_owned(), remote_node: "n".to_owned(), remote_addr: "r".to_owned(), local_addr: "l".to_owned() };
    assert_eq!(conn.id, "c");
}

#[test]
fn packages_install_with_the_detected_manager() {
    assert_eq!(DepsInstaller::detect_package_manager().unwrap(), PackageManager::Apt);
    let (manager, steps) = DepsInstaller.install_package("curl").unwrap();
    assert_eq!(manager, PackageManager::Apt);
    assert_eq!(steps, vec![vec!["sudo", "apt", "update"], vec!["sudo", "apt", "install", "-y", "curl"]]);
    match DepsInstaller::step_failure(PackageManager::Apt, 1, b"x") {
        PanelError::Service(m) => assert_eq!(m, "Failed to install package: x"),
        _ => panic!("wrong kind"),
    }
    assert_eq!(DepsInstaller::commands_for(PackageManager::Brew, "jq"), vec![vec!["brew", "install", "jq"]]);
    assert_eq!(DepsInstaller::commands_for(PackageManager::Pacman, "jq"), vec![vec!["sudo", "pacman", "-S", "--noconfirm", "jq"]]);
    match DepsInstaller::failure(true, b"E: locked") {
        PanelError::Service(m) => assert_eq!(m, "Failed to update apt: E: locked"),
        _ => panic!("wrong kind"),
    }
    match DepsInstaller::failure(false, &[0x66, 0xff]) {
        PanelError::Service(m) => assert_eq!(m, "Failed to install package: f\u{FFFD}"),
        _ => panic!("wrong kind"),
    }
}

#[test]
fn node_administration_starts_and_stops() {
    let admin = NodeAdmin::new("node-7");
    assert_eq!(admin.node_id, "node-7");
    assert!(admin.initialize().is_ok());
    assert!(admin.shutdown().is_ok());
    let m = MemoryStats::unknown();
    assert_eq!(m.total + m.used + m.free, 0);
    let d = DiskStats::unknown();
    assert_eq!(d.available, 0);
    assert_eq!(NodeHealth::Warning, NodeHealth::Warning);
    let f = FileInfo { path: "/x".to_owned(), is_dir: false, size: 3, modified: 0 };
    assert!(!f.is_dir);
}

#[test]
fn operator_manages_services_and_views_everything() {
    let operator = get_role_by_name("operator").unwrap();
    for p in [Permission::UserList, Permission::UserView, Permission::SystemView, Permission::ServiceRestart, Permission::NodeView] {
        assert!(user_has_permission(&[get_role_by_name("operator").unwrap()], &p));
    }
    for p in [Permission::UserCreate, Permission::SystemConfig, Permission::ServiceDelete, Permission::NodeControl] {
        assert!(!user_has_permission(&[get_role_by_name("operator").unwrap()], &p));
    }
    assert_eq!(operator.name, "operator");
}
