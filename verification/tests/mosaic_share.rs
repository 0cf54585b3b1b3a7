use cam_manager::error::EngineError;
use cam_manager::models::{
    CreateMosaicShareRequest, Mosaic, MosaicShare, MosaicWithCameras, ShareAccess,
};
use cam_manager::mosaic_share::{
    add_hours, create_share, join_emails, share_expiry, share_link, share_token, share_verdict,
    token_char, validate_share, validate_share_at,
};

fn mosaic() -> MosaicWithCameras {
    MosaicWithCameras {
        mosaic: Mosaic {
            id: 1,
            name: "lobby".to_string(),
            layout: "2x2".to_string(),
            active: true,
            pid: Some(1),
            created_at: None,
        },
        cameras: Vec::new(),
    }
}

fn request(emails: &[&str], duration_hours: i64) -> CreateMosaicShareRequest {
    CreateMosaicShareRequest {
        mosaic_id: 1,
        emails: emails.iter().map(|e| e.to_string()).collect(),
        duration_hours,
        schedule_start: None,
        schedule_end: None,
    }
}

fn share(active: bool, expires_at: &str, window: Option<(&str, &str)>) -> MosaicShare {
    MosaicShare {
        id: 9,
        mosaic_id: 1,
        mosaic_name: "lobby".to_string(),
        token: "t".to_string(),
        emails: "a@b.cd".to_string(),
        expires_at: expires_at.to_string(),
        schedule_start: window.map(|w| w.0.to_string()),
        schedule_end: window.map(|w| w.1.to_string()),
        active,
        created_at: None,
    }
}

fn access(window: Option<(&str, &str)>, expires_at: &str, is_active: bool) -> ShareAccess {
    ShareAccess {
        mosaic_name: "lobby".to_string(),
        stream_name: "mosaic-lobby".to_string(),
        expires_at: expires_at.to_string(),
        schedule_start: window.map(|w| w.0.to_string()),
        schedule_end: window.map(|w| w.1.to_string()),
        is_active,
    }
}

// 2024-03-05 14:07:09 UTC
const NOW: i128 = 1_709_647_629_000_000_000;

#[test]
fn sharing_needs_a_mosaic_an_address_and_an_hour() {
    let m = mosaic();
    assert_eq!(create_share(&request(&["a@b.cd"], 1), Some(&m)), Ok(()));
    assert_eq!(
        create_share(&request(&[], 0), None),
        Err(EngineError::NotFound("Mosaico no encontrado".to_string()))
    );
    assert_eq!(
        create_share(&request(&[], 0), Some(&m)),
        Err(EngineError::InvalidState("Se requiere al menos un email".to_string()))
    );
    assert_eq!(
        create_share(&request(&["a@b.cd"], 0), Some(&m)),
        Err(EngineError::InvalidState("La duración mínima es 1 hora".to_string()))
    );
    assert_eq!(
        create_share(&request(&["a@b.cd"], -3), Some(&m)),
        Err(EngineError::InvalidState("La duración mínima es 1 hora".to_string()))
    );
}

#[test]
fn token_is_32_digits_and_lower_case_letters() {
    let alphabet: String = (0..36u8).map(token_char).collect();
    assert_eq!(alphabet, "0123456789abcdefghijklmnopqrstuvwxyz");
    for _ in 0..50 {
        let token = share_token();
        assert_eq!(token.chars().count(), 32);
        assert!(token.chars().all(|c| c.is_ascii_digit() || c.is_ascii_lowercase()));
    }
    assert_ne!(share_token(), share_token());
}

#[test]
fn addresses_are_joined_by_commas() {
    let emails = |items: &[&str]| items.iter().map(|e| e.to_string()).collect::<Vec<String>>();
    assert_eq!(join_emails(&emails(&[])), "");
    assert_eq!(join_emails(&emails(&["a@b.cd"])), "a@b.cd");
    assert_eq!(join_emails(&emails(&["a@b.cd", "e@f.gh", "i@j.kl"])), "a@b.cd,e@f.gh,i@j.kl");
    assert_eq!(join_emails(&emails(&["", ""])), ",");
    assert_eq!(share_link("http://localhost:8080", "abc"), "http://localhost:8080/shared/abc");
}

#[test]
fn expiry_is_hours_after_now() {
    assert_eq!(add_hours(0, 1), Some(3_600_000_000_000));
    assert_eq!(add_hours(NOW, 24), Some(NOW + 86_400_000_000_000));
    assert_eq!(add_hours(NOW, -1), Some(NOW - 3_600_000_000_000));
    assert_eq!(add_hours(i128::MAX, 1), None);
    assert_eq!(add_hours(i128::MIN, -1), None);
    assert_eq!(share_expiry(NOW, 24), Some("2024-03-06T14:07:09Z".to_string()));
    assert_eq!(share_expiry(NOW, 1), Some("2024-03-05T15:07:09Z".to_string()));
    assert_eq!(share_expiry(NOW, i64::MAX), None);
    assert_eq!(share_expiry(i128::MAX, 1), None);
}

#[test]
fn a_share_that_is_off_lets_nobody_in() {
    let r = share_verdict(&share(false, "x", None), NOW, Some(NOW + 1), "14:07", Some(true));
    assert_eq!(r, Err(EngineError::Forbidden("Este enlace ha sido desactivado".to_string())));
    assert_eq!(r.unwrap_err().status(), 403);
}

#[test]
fn a_share_is_over_after_its_end() {
    let s = share(true, "x", None);
    assert_eq!(
        share_verdict(&s, NOW, Some(NOW - 1), "14:07", Some(true)),
        Err(EngineError::Forbidden("Este enlace ha expirado".to_string()))
    );
    assert_eq!(share_verdict(&s, NOW, Some(NOW), "14:07", Some(true)), Ok(access(None, "x", true)));
    assert_eq!(share_verdict(&s, NOW, None, "14:07", Some(true)), Ok(access(None, "x", true)));
    assert_eq!(share_verdict(&s, NOW, None, "14:07", Some(false)), Ok(access(None, "x", false)));
    assert_eq!(share_verdict(&s, NOW, None, "14:07", None), Ok(access(None, "x", false)));
}

#[test]
fn a_share_is_open_within_its_hours_only() {
    let window = Some(("08:00", "18:00"));
    let s = share(true, "x", window);
    let closed = Err(EngineError::Forbidden(
        "Este mosaico solo está disponible entre 08:00 y 18:00".to_string(),
    ));
    assert_eq!(share_verdict(&s, NOW, None, "07:59", Some(true)), closed);
    assert_eq!(share_verdict(&s, NOW, None, "18:01", Some(true)), closed);
    assert_eq!(share_verdict(&s, NOW, None, "", Some(true)), closed);
    assert_eq!(share_verdict(&s, NOW, None, "08:00", Some(true)), Ok(access(window, "x", true)));
    assert_eq!(share_verdict(&s, NOW, None, "18:00", Some(true)), Ok(access(window, "x", true)));
    assert_eq!(share_verdict(&s, NOW, None, "12:30", Some(true)), Ok(access(window, "x", true)));
    let half = MosaicShare { schedule_end: None, ..share(true, "x", window) };
    assert!(share_verdict(&half, NOW, None, "03:00", Some(true)).is_ok());
}

#[test]
fn access_reads_end_and_clock_from_the_calendar() {
    let window = Some(("14:00", "14:30"));
    let open = share(true, "2024-03-05T15:00:00Z", window);
    assert_eq!(
        validate_share_at(Some(&open), NOW, Some(true)),
        Ok(access(window, "2024-03-05T15:00:00Z", true))
    );
    let over = share(true, "2024-03-05T14:00:00Z", window);
    assert_eq!(
        validate_share_at(Some(&over), NOW, Some(true)),
        Err(EngineError::Forbidden("Este enlace ha expirado".to_string()))
    );
    let offset = share(true, "2024-03-05T16:00:00+02:00", None);
    assert_eq!(
        validate_share_at(Some(&offset), NOW, Some(true)),
        Err(EngineError::Forbidden("Este enlace ha expirado".to_string()))
    );
    let unreadable = share(true, "next week", None);
    assert_eq!(
        validate_share_at(Some(&unreadable), NOW, None),
        Ok(access(None, "next week", false))
    );
    let late = share(true, "2024-03-05T15:00:00Z", Some(("09:00", "14:00")));
    assert_eq!(
        validate_share_at(Some(&late), NOW, Some(true)),
        Err(EngineError::Forbidden(
            "Este mosaico solo está disponible entre 09:00 y 14:00".to_string()
        ))
    );
    assert_eq!(
        validate_share_at(None, NOW, Some(true)),
        Err(EngineError::NotFound("Enlace no válido".to_string()))
    );
}

#[test]
fn access_at_the_clock() {
    assert_eq!(
        validate_share(None, None),
        Err(EngineError::NotFound("Enlace no válido".to_string()))
    );
    let forever = share(true, "9999-12-31T23:59:59Z", None);
    assert_eq!(
        validate_share(Some(&forever), Some(true)),
        Ok(access(None, "9999-12-31T23:59:59Z", true))
    );
    let past = share(true, "2001-01-01T00:00:00Z", None);
    assert_eq!(
        validate_share(Some(&past), Some(true)),
        Err(EngineError::Forbidden("Este enlace ha expirado".to_string()))
    );
}
