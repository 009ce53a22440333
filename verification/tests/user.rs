use webapp_init_data::{JsonError, Member, UserMembers, WebAppUser};

fn members() -> UserMembers {
    UserMembers {
        id: Member::Integer(1),
        is_bot: Member::Absent,
        first_name: Member::Text("A".to_string()),
        last_name: Member::Absent,
        username: Member::Absent,
        language_code: Member::Absent,
        is_premium: Member::Absent,
        added_to_attachment_menu: Member::Absent,
        allows_write_to_pm: Member::Absent,
        photo_url: Member::Absent,
    }
}

#[test]
fn smallest_object_decodes() {
    let user = WebAppUser::from_json(r#"{"id":1,"first_name":"A"}"#).unwrap();
    assert_eq!(user.id(), 1);
    assert_eq!(user.is_bot(), None);
    assert_eq!(user.first_name(), "A");
    assert_eq!(user.last_name(), None);
    assert_eq!(user.username(), None);
    assert_eq!(user.language_code(), None);
    assert!(!user.is_premium());
    assert!(!user.added_to_attachment_menu());
    assert!(!user.allows_write_to_pm());
    assert_eq!(user.photo_url(), None);
}

#[test]
fn full_object_decodes() {
    let user = WebAppUser::from_json(
        r#" { "photo_url": "p", "allows_write_to_pm": true, "added_to_attachment_menu": false,
              "is_premium": true, "language_code": "de", "username": "u", "last_name": "L",
              "first_name": "Fé \"x\"", "is_bot": true, "id": -9223372036854775808 } "#,
    )
    .unwrap();
    assert_eq!(user.id(), i64::MIN);
    assert_eq!(user.is_bot(), Some(true));
    assert_eq!(user.first_name(), "Fé \"x\"");
    assert_eq!(user.last_name(), Some("L"));
    assert_eq!(user.username(), Some("u"));
    assert_eq!(user.language_code(), Some("de"));
    assert!(user.is_premium());
    assert!(!user.added_to_attachment_menu());
    assert!(user.allows_write_to_pm());
    assert_eq!(user.photo_url(), Some("p"));
}

#[test]
fn flag_left_out_is_false() {
    let user =
        WebAppUser::from_json(r#"{"id":1,"first_name":"A","allows_write_to_pm":true}"#).unwrap();
    assert!(!user.is_premium());
    assert!(!user.added_to_attachment_menu());
    assert!(user.allows_write_to_pm());
}

#[test]
fn is_bot_has_three_states() {
    let unsaid = WebAppUser::from_json(r#"{"id":1,"first_name":"A"}"#).unwrap();
    let null = WebAppUser::from_json(r#"{"id":1,"first_name":"A","is_bot":null}"#).unwrap();
    let no = WebAppUser::from_json(r#"{"id":1,"first_name":"A","is_bot":false}"#).unwrap();
    let yes = WebAppUser::from_json(r#"{"id":1,"first_name":"A","is_bot":true}"#).unwrap();
    assert_eq!(unsaid.is_bot(), None);
    assert_eq!(null.is_bot(), None);
    assert_eq!(no.is_bot(), Some(false));
    assert_eq!(yes.is_bot(), Some(true));
}

#[test]
fn optional_text_may_be_null() {
    let user = WebAppUser::from_json(
        r#"{"id":1,"first_name":"","last_name":null,"username":null,"language_code":null,"photo_url":null}"#,
    )
    .unwrap();
    assert_eq!(user.first_name(), "");
    assert_eq!(user.last_name(), None);
    assert_eq!(user.username(), None);
    assert_eq!(user.language_code(), None);
    assert_eq!(user.photo_url(), None);
}

#[test]
fn unknown_members_are_passed_over() {
    let user = WebAppUser::from_json(
        r#"{"id":5,"first_name":"A","is_admin":true,"nested":{"id":"x"},"list":[1,2]}"#,
    )
    .unwrap();
    assert_eq!(user.id(), 5);
}

#[test]
fn later_member_of_one_name_counts() {
    let user = WebAppUser::from_json(r#"{"id":1,"first_name":"A","id":2}"#).unwrap();
    assert_eq!(user.id(), 2);
}

#[test]
fn greatest_identifier_is_read_and_no_greater() {
    let user = WebAppUser::from_json(r#"{"id":9223372036854775807,"first_name":"A"}"#).unwrap();
    assert_eq!(user.id(), i64::MAX);
    let result = WebAppUser::from_json(r#"{"id":9223372036854775808,"first_name":"A"}"#);
    assert!(matches!(result, Err(JsonError::InvalidType("id"))));
    let result = WebAppUser::from_json(r#"{"id":-9223372036854775809,"first_name":"A"}"#);
    assert!(matches!(result, Err(JsonError::InvalidType("id"))));
}

#[test]
fn text_that_is_no_json_is_a_syntax_error() {
    for text in ["", "{", "{not json", r#"{"id":1,"first_name":"A"} x"#, "{'id':1}", "nul"] {
        let result = WebAppUser::from_json(text);
        assert!(matches!(result, Err(JsonError::Syntax(_))), "{text:?}");
    }
}

#[test]
fn syntax_error_keeps_the_parsers_message() {
    match WebAppUser::from_json("{") {
        Err(JsonError::Syntax(message)) => assert!(message.contains("line 1"), "{message}"),
        other => panic!("{other:?}"),
    }
}

#[test]
fn json_that_is_no_object_is_reported() {
    for text in
        ["null", "true", "7", "\"A\"", "[]", r#"[1,null,"A",null,null,null,false,false,false,null]"#]
    {
        let result = WebAppUser::from_json(text);
        assert!(matches!(result, Err(JsonError::NotAnObject)), "{text:?}");
    }
}

#[test]
fn missing_members_are_reported() {
    assert!(matches!(WebAppUser::from_json("{}"), Err(JsonError::MissingField("id"))));
    assert!(matches!(
        WebAppUser::from_json(r#"{"first_name":"A"}"#),
        Err(JsonError::MissingField("id"))
    ));
    assert!(matches!(
        WebAppUser::from_json(r#"{"id":1}"#),
        Err(JsonError::MissingField("first_name"))
    ));
    assert!(matches!(
        WebAppUser::from_json(r#"{"id":1,"First_Name":"A"}"#),
        Err(JsonError::MissingField("first_name"))
    ));
}

#[test]
fn members_of_the_wrong_kind_are_reported() {
    let cases = [
        (r#"{"id":"1","first_name":"A"}"#, "id"),
        (r#"{"id":1.0,"first_name":"A"}"#, "id"),
        (r#"{"id":1e2,"first_name":"A"}"#, "id"),
        (r#"{"id":null,"first_name":"A"}"#, "id"),
        (r#"{"id":true,"first_name":"A"}"#, "id"),
        (r#"{"id":1,"first_name":null}"#, "first_name"),
        (r#"{"id":1,"first_name":7}"#, "first_name"),
        (r#"{"id":1,"first_name":["A"]}"#, "first_name"),
        (r#"{"id":1,"first_name":"A","is_bot":"no"}"#, "is_bot"),
        (r#"{"id":1,"first_name":"A","is_bot":0}"#, "is_bot"),
        (r#"{"id":1,"first_name":"A","last_name":1}"#, "last_name"),
        (r#"{"id":1,"first_name":"A","username":false}"#, "username"),
        (r#"{"id":1,"first_name":"A","language_code":{}}"#, "language_code"),
        (r#"{"id":1,"first_name":"A","is_premium":null}"#, "is_premium"),
        (r#"{"id":1,"first_name":"A","is_premium":"true"}"#, "is_premium"),
        (r#"{"id":1,"first_name":"A","added_to_attachment_menu":1}"#, "added_to_attachment_menu"),
        (r#"{"id":1,"first_name":"A","allows_write_to_pm":null}"#, "allows_write_to_pm"),
        (r#"{"id":1,"first_name":"A","photo_url":[]}"#, "photo_url"),
    ];
    for (text, name) in cases {
        match WebAppUser::from_json(text) {
            Err(JsonError::InvalidType(found)) => assert_eq!(found, name, "{text}"),
            other => panic!("{text}: {other:?}"),
        }
    }
}

#[test]
fn first_faulty_member_is_reported() {
    let result = WebAppUser::from_json(r#"{"photo_url":1,"is_premium":2,"first_name":3}"#);
    assert!(matches!(result, Err(JsonError::MissingField("id"))));
    let result = WebAppUser::from_json(r#"{"photo_url":1,"is_premium":2,"first_name":3,"id":4}"#);
    assert!(matches!(result, Err(JsonError::InvalidType("first_name"))));
    let result = WebAppUser::from_json(r#"{"photo_url":1,"is_premium":2,"first_name":"3","id":4}"#);
    assert!(matches!(result, Err(JsonError::InvalidType("is_premium"))));
    let result = WebAppUser::from_json(r#"{"photo_url":1,"first_name":"3","id":4,"is_bot":5}"#);
    assert!(matches!(result, Err(JsonError::InvalidType("is_bot"))));
}

#[test]
fn members_make_a_record() {
    let user = WebAppUser::from_members(members()).unwrap();
    assert_eq!(user.id(), 1);
    assert_eq!(user.first_name(), "A");
    assert_eq!(user.is_bot(), None);
    assert!(!user.is_premium());

    let mut all = members();
    all.id = Member::Integer(-3);
    all.is_bot = Member::Bool(true);
    all.last_name = Member::Text("L".to_string());
    all.username = Member::Null;
    all.language_code = Member::Text("en".to_string());
    all.is_premium = Member::Bool(true);
    all.added_to_attachment_menu = Member::Bool(false);
    all.allows_write_to_pm = Member::Bool(true);
    all.photo_url = Member::Text("p".to_string());
    let user = WebAppUser::from_members(all).unwrap();
    assert_eq!(user.id(), -3);
    assert_eq!(user.is_bot(), Some(true));
    assert_eq!(user.last_name(), Some("L"));
    assert_eq!(user.username(), None);
    assert_eq!(user.language_code(), Some("en"));
    assert!(user.is_premium());
    assert!(!user.added_to_attachment_menu());
    assert!(user.allows_write_to_pm());
    assert_eq!(user.photo_url(), Some("p"));
}

#[test]
fn faulty_members_make_no_record() {
    let mut m = members();
    m.id = Member::Absent;
    assert!(matches!(WebAppUser::from_members(m), Err(JsonError::MissingField("id"))));
    let mut m = members();
    m.id = Member::Other;
    assert!(matches!(WebAppUser::from_members(m), Err(JsonError::InvalidType("id"))));
    let mut m = members();
    m.first_name = Member::Null;
    assert!(matches!(WebAppUser::from_members(m), Err(JsonError::InvalidType("first_name"))));
    let mut m = members();
    m.is_premium = Member::Null;
    assert!(matches!(WebAppUser::from_members(m), Err(JsonError::InvalidType("is_premium"))));
    let mut m = members();
    m.is_bot = Member::Integer(1);
    m.photo_url = Member::Bool(true);
    assert!(matches!(WebAppUser::from_members(m), Err(JsonError::InvalidType("is_bot"))));
}

#[test]
fn parsed_document_makes_a_record() {
    let value: serde_json::Value =
        serde_json::from_str(r#"{"id":11,"first_name":"V","is_premium":true}"#).unwrap();
    let user = WebAppUser::from_value(&value).unwrap();
    assert_eq!(user.id(), 11);
    assert_eq!(user.first_name(), "V");
    assert!(user.is_premium());
}

#[test]
fn document_built_by_hand_makes_a_record() {
    let mut members = serde_json::Map::new();
    members.insert("id".to_string(), serde_json::Value::from(-5i64));
    members.insert("first_name".to_string(), serde_json::Value::from("H"));
    members.insert("is_bot".to_string(), serde_json::Value::Null);
    members.insert("username".to_string(), serde_json::Value::from("h"));
    members.insert("allows_write_to_pm".to_string(), serde_json::Value::Bool(true));
    let user = WebAppUser::from_value(&serde_json::Value::Object(members)).unwrap();
    assert_eq!(user.id(), -5);
    assert_eq!(user.first_name(), "H");
    assert_eq!(user.is_bot(), None);
    assert_eq!(user.username(), Some("h"));
    assert!(user.allows_write_to_pm());
    assert!(!user.is_premium());
}

#[test]
fn document_that_is_no_object_makes_no_record() {
    for value in [
        serde_json::Value::Null,
        serde_json::Value::Bool(true),
        serde_json::Value::from(1u64),
        serde_json::Value::from("A"),
        serde_json::Value::Array(vec![serde_json::Value::from(1u64)]),
    ] {
        assert!(matches!(WebAppUser::from_value(&value), Err(JsonError::NotAnObject)));
    }
}

#[test]
fn identifier_above_the_signed_range_is_of_the_wrong_kind() {
    let mut members = serde_json::Map::new();
    members.insert("id".to_string(), serde_json::Value::from(u64::MAX));
    members.insert("first_name".to_string(), serde_json::Value::from("H"));
    let result = WebAppUser::from_value(&serde_json::Value::Object(members));
    assert!(matches!(result, Err(JsonError::InvalidType("id"))));
}
