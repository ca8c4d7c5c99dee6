use blacksmith_core::viper_auth::{reset_user_state, reset_user_state_with_message, AuthStages};
use std::collections::HashMap;

type Stages = AuthStages<String, u32, u8>;

fn cleared(s: &Stages) -> bool {
    !s.awaiting_phone_number
        && !s.awaiting_passcode
        && !s.awaiting_2fa
        && s.phone_number.is_none()
        && s.passcode.is_none()
        && s.two_fa.is_none()
        && s.client.is_none()
        && s.token.is_none()
        && s.password_token.is_none()
        && !s.authorized
}

#[test]
fn reset_of_an_unknown_user_records_a_blank_login() {
    let mut states: HashMap<u64, Stages> = HashMap::new();
    reset_user_state(&mut states, 7);
    let s = states.get(&7).expect("the user has a state");
    assert!(cleared(s));
    assert!(!s.unauthorized);
}

#[test]
fn reset_clears_the_login_but_keeps_the_unauthorized_mark() {
    let mut states: HashMap<u64, Stages> = HashMap::new();
    let mut s = Stages::default();
    s.awaiting_passcode = true;
    s.phone_number = Some("+10000000000".to_string());
    s.client = Some("session".to_string());
    s.token = Some(5);
    s.authorized = true;
    s.unauthorized = true;
    states.insert(3, s);
    states.insert(4, Stages::default());
    let tail = reset_user_state_with_message(&mut states, 3);
    assert_eq!(tail, ". Please restart the application and try again.");
    let s = &states[&3];
    assert!(cleared(s));
    assert!(s.unauthorized);
    assert_eq!(states.len(), 2);
}
