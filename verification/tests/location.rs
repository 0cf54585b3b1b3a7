use cam_manager::error::EngineError;
use cam_manager::location::{check_area, check_location, delete_location};
use cam_manager::models::{Area, Location};
use cam_manager::user::{
    check_role, create_user, hash_password, password_hash_reply, reset_link, reset_password,
    reset_token, token_of, update_user,
};
use cam_manager::models::{CreateUserRequest, ResetPasswordRequest, UpdateUserRequest};

fn location(name: &str, is_system: bool) -> Location {
    Location { id: 1, name: name.to_string(), description: String::new(), is_system, created_at: None }
}

fn area(name: &str, location_id: i64) -> Area {
    Area { id: 1, name: name.to_string(), location_id, description: String::new(), created_at: None }
}

#[test]
fn location_needs_a_name() {
    let needed = Err(EngineError::InvalidState("El nombre de la ubicación es requerido".to_string()));
    assert_eq!(check_location(&location("", false)), needed);
    assert_eq!(check_location(&location("   ", false)), needed);
    assert_eq!(check_location(&location(" \t\n", false)), needed);
    assert_eq!(check_location(&location("\u{a0}\u{2003}", false)), needed);
    assert_eq!(check_location(&location(" Warehouse 1 ", false)), Ok(()));
    assert_eq!(check_location(&location("_", true)), Ok(()));
}

#[test]
fn system_locations_stay() {
    let r = delete_location(Some(&location("Main", true)));
    assert_eq!(
        r,
        Err(EngineError::Forbidden("No se pueden eliminar ubicaciones del sistema".to_string()))
    );
    assert_eq!(r.unwrap_err().status(), 403);
    assert_eq!(delete_location(Some(&location("Main", false))), Ok(()));
    assert_eq!(
        delete_location(None),
        Err(EngineError::NotFound("Location no encontrada".to_string()))
    );
}

#[test]
fn area_needs_a_name_and_a_location() {
    assert_eq!(
        check_area(&area(" ", 3)),
        Err(EngineError::InvalidState("El nombre del área es requerido".to_string()))
    );
    assert_eq!(
        check_area(&area(" ", 0)),
        Err(EngineError::InvalidState("El nombre del área es requerido".to_string()))
    );
    assert_eq!(
        check_area(&area("Dock", 0)),
        Err(EngineError::InvalidState("La ubicación es requerida".to_string()))
    );
    assert_eq!(
        check_area(&area("Dock", -4)),
        Err(EngineError::InvalidState("La ubicación es requerida".to_string()))
    );
    assert_eq!(check_area(&area("Dock", 1)), Ok(()));
}

fn new_user(username: &str, email: &str, password: &str) -> CreateUserRequest {
    CreateUserRequest {
        username: username.to_string(),
        email: email.to_string(),
        password: password.to_string(),
        role: "viewer".to_string(),
    }
}

#[test]
fn account_rules_in_their_order() {
    let needed =
        Err(EngineError::InvalidState("username, email y password son requeridos".to_string()));
    assert_eq!(create_user(&new_user("", "a@b.cd", "Abcdefg1")), needed);
    assert_eq!(create_user(&new_user("ana", "", "Abcdefg1")), needed);
    assert_eq!(create_user(&new_user("ana", "a@b.cd", "")), needed);
    assert_eq!(
        create_user(&new_user("ana", "nothing", "Abcdefg1")),
        Err(EngineError::InvalidState("Formato de email inválido".to_string()))
    );
    assert_eq!(
        create_user(&new_user("ana", "nothing", "x")),
        Err(EngineError::InvalidState("Formato de email inválido".to_string()))
    );
    assert_eq!(
        create_user(&new_user("ana", "a@b.cd", "Ab1")),
        Err(EngineError::InvalidState(
            "La contraseña debe tener al menos 8 caracteres".to_string()
        ))
    );
    assert_eq!(
        create_user(&new_user("ana", "a@b.cd", "abcdefgh")),
        Err(EngineError::InvalidState(
            "La contraseña debe contener mayúsculas, minúsculas y números".to_string()
        ))
    );
    assert_eq!(create_user(&new_user("ana", "a@b.cd", "Abcdefg1")), Ok(()));
}

#[test]
fn only_a_given_password_is_changed() {
    let request = |password: Option<&str>| UpdateUserRequest {
        username: "ana".to_string(),
        email: "a@b.cd".to_string(),
        password: password.map(|p| p.to_string()),
        role: "viewer".to_string(),
        active: true,
    };
    assert_eq!(update_user(&request(None)), None);
    assert_eq!(update_user(&request(Some(""))), None);
    assert_eq!(update_user(&request(Some("new"))), Some("new"));
}

#[test]
fn reset_needs_token_and_six_bytes() {
    let request = |token: &str, password: &str| ResetPasswordRequest {
        token: token.to_string(),
        password: password.to_string(),
    };
    let needed = Err(EngineError::InvalidState("Token y contraseña son requeridos".to_string()));
    assert_eq!(reset_password(&request("", "secret1")), needed);
    assert_eq!(reset_password(&request("t", "")), needed);
    assert_eq!(
        reset_password(&request("t", "12345")),
        Err(EngineError::InvalidState(
            "La contraseña debe tener al menos 6 caracteres".to_string()
        ))
    );
    assert_eq!(reset_password(&request("t", "123456")), Ok(()));
    assert_eq!(reset_password(&request("t", "ñññ")), Ok(()));
    assert_eq!(
        reset_link("http://localhost:8080", "abc123"),
        "http://localhost:8080/reset-password?token=abc123"
    );
}

#[test]
fn role_needs_a_name() {
    assert_eq!(
        check_role(""),
        Err(EngineError::InvalidState("El nombre es requerido".to_string()))
    );
    assert_eq!(check_role(" "), Ok(()));
    assert_eq!(check_role("operator"), Ok(()));
}

#[test]
fn reset_token_is_64_hexadecimal_digits() {
    assert_eq!(token_of(&vec![]), "");
    assert_eq!(token_of(&vec![0x00, 0x0f, 0x10, 0xab, 0xff]), "000f10abff");
    assert_eq!(token_of(&vec![1, 2, 3, 15, 16]), "0102030f10");
    for _ in 0..20 {
        let token = reset_token();
        assert_eq!(token.len(), 64);
        assert!(token.chars().all(|c| c.is_ascii_digit() || ('a'..='f').contains(&c)));
    }
    assert_ne!(reset_token(), reset_token());
}

#[test]
fn password_hash_is_salted_and_failure_is_silent() {
    let first = hash_password("Abcdefg1").unwrap();
    let second = hash_password("Abcdefg1").unwrap();
    assert!(first.starts_with("$2"));
    assert_eq!(first.len(), 60);
    assert_ne!(first, second);
    assert_eq!(password_hash_reply(Some("h".to_string())), Ok("h".to_string()));
    let failed = password_hash_reply(None);
    assert_eq!(failed, Err(EngineError::IoFailed("Error procesando contraseña".to_string())));
    assert_eq!(failed.unwrap_err().status(), 500);
}
