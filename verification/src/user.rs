//! The record of a user, and how it is decoded from a JSON object.

use vstd::prelude::*;
use vstd::string::*;
use crate::error::{JsonError, JsonFault};
use crate::json::{json_of, json_text, member_seen, parse_value, read_member, Json, Member,
    MemberView};

verus! {

/// The members of a JSON object that a user record is made of, each as the
/// decoder sees it.
#[derive(Debug)]
pub struct UserMembers {
    pub id: Member,
    pub is_bot: Member,
    pub first_name: Member,
    pub last_name: Member,
    pub username: Member,
    pub language_code: Member,
    pub is_premium: Member,
    pub added_to_attachment_menu: Member,
    pub allows_write_to_pm: Member,
    pub photo_url: Member,
}

/// `UserMembers` with its texts as sequences of characters.
pub struct UserMembersView {
    pub id: MemberView,
    pub is_bot: MemberView,
    pub first_name: MemberView,
    pub last_name: MemberView,
    pub username: MemberView,
    pub language_code: MemberView,
    pub is_premium: MemberView,
    pub added_to_attachment_menu: MemberView,
    pub allows_write_to_pm: MemberView,
    pub photo_url: MemberView,
}

impl View for UserMembers {
    type V = UserMembersView;

    open spec fn view(&self) -> UserMembersView {
        UserMembersView {
            id: self.id@,
            is_bot: self.is_bot@,
            first_name: self.first_name@,
            last_name: self.last_name@,
            username: self.username@,
            language_code: self.language_code@,
            is_premium: self.is_premium@,
            added_to_attachment_menu: self.added_to_attachment_menu@,
            allows_write_to_pm: self.allows_write_to_pm@,
            photo_url: self.photo_url@,
        }
    }
}

/// A user as the host platform describes it.
#[derive(Debug)]
pub struct WebAppUser {
    id: i64,
    is_bot: Option<bool>,
    first_name: String,
    last_name: Option<String>,
    username: Option<String>,
    language_code: Option<String>,
    is_premium: bool,
    added_to_attachment_menu: bool,
    allows_write_to_pm: bool,
    photo_url: Option<String>,
}

/// What a user record holds.
pub struct UserView {
    /// The identifier; negative for actors that are no persons.
    pub id: i64,
    /// Whether the user is a bot, where the platform says so.
    pub is_bot: Option<bool>,
    pub first_name: Seq<char>,
    pub last_name: Option<Seq<char>>,
    pub username: Option<Seq<char>>,
    pub language_code: Option<Seq<char>>,
    pub is_premium: bool,
    pub added_to_attachment_menu: bool,
    pub allows_write_to_pm: bool,
    pub photo_url: Option<Seq<char>>,
}

/// An optional string as an optional sequence of characters.
pub open spec fn optional_text(text: Option<String>) -> Option<Seq<char>> {
    match text {
        Some(s) => Some(s@),
        None => None,
    }
}

impl View for WebAppUser {
    type V = UserView;

    closed spec fn view(&self) -> UserView {
        UserView {
            id: self.id,
            is_bot: self.is_bot,
            first_name: self.first_name@,
            last_name: optional_text(self.last_name),
            username: optional_text(self.username),
            language_code: optional_text(self.language_code),
            is_premium: self.is_premium,
            added_to_attachment_menu: self.added_to_attachment_menu,
            allows_write_to_pm: self.allows_write_to_pm,
            photo_url: optional_text(self.photo_url),
        }
    }
}

/// What is wrong with a member that must be an integer.
pub open spec fn number_fault(member: MemberView, name: Seq<char>) -> Option<JsonFault> {
    match member {
        MemberView::Integer(_) => None,
        MemberView::Absent => Some(JsonFault::MissingField(name)),
        _ => Some(JsonFault::InvalidType(name)),
    }
}

/// What is wrong with a member that must be a string.
pub open spec fn text_fault(member: MemberView, name: Seq<char>) -> Option<JsonFault> {
    match member {
        MemberView::Text(_) => None,
        MemberView::Absent => Some(JsonFault::MissingField(name)),
        _ => Some(JsonFault::InvalidType(name)),
    }
}

/// What is wrong with a member that may be left out or `null`, and is a
/// string otherwise.
pub open spec fn optional_text_fault(member: MemberView, name: Seq<char>) -> Option<JsonFault> {
    match member {
        MemberView::Text(_) => None,
        MemberView::Absent => None,
        MemberView::Null => None,
        _ => Some(JsonFault::InvalidType(name)),
    }
}

/// What is wrong with a member that may be left out or `null`, and is a truth
/// value otherwise.
pub open spec fn optional_bool_fault(member: MemberView, name: Seq<char>) -> Option<JsonFault> {
    match member {
        MemberView::Bool(_) => None,
        MemberView::Absent => None,
        MemberView::Null => None,
        _ => Some(JsonFault::InvalidType(name)),
    }
}

/// What is wrong with a member that may be left out, and is a truth value
/// otherwise.
pub open spec fn flag_fault(member: MemberView, name: Seq<char>) -> Option<JsonFault> {
    match member {
        MemberView::Bool(_) => None,
        MemberView::Absent => None,
        _ => Some(JsonFault::InvalidType(name)),
    }
}

/// The integer of a member.
pub open spec fn number_in(member: MemberView) -> i64 {
    match member {
        MemberView::Integer(n) => n,
        _ => 0,
    }
}

/// The string of a member.
pub open spec fn text_in(member: MemberView) -> Seq<char> {
    match member {
        MemberView::Text(s) => s,
        _ => Seq::empty(),
    }
}

/// The string of a member, if it is one.
pub open spec fn optional_text_in(member: MemberView) -> Option<Seq<char>> {
    match member {
        MemberView::Text(s) => Some(s),
        _ => None,
    }
}

/// The truth value of a member, if it is one.
pub open spec fn optional_bool_in(member: MemberView) -> Option<bool> {
    match member {
        MemberView::Bool(b) => Some(b),
        _ => None,
    }
}

/// The truth value of a member, and `false` for one that is left out.
pub open spec fn flag_in(member: MemberView) -> bool {
    match member {
        MemberView::Bool(b) => b,
        _ => false,
    }
}

/// The first of two faults.
pub open spec fn or_else(first: Option<JsonFault>, second: Option<JsonFault>) -> Option<JsonFault> {
    if first is Some {
        first
    } else {
        second
    }
}

/// The first thing that is wrong with the members, taken in the order of the
/// record's fields.
pub open spec fn first_fault(m: UserMembersView) -> Option<JsonFault> {
    or_else(
        number_fault(m.id, "id"@),
        or_else(
            optional_bool_fault(m.is_bot, "is_bot"@),
            or_else(
                text_fault(m.first_name, "first_name"@),
                or_else(
                    optional_text_fault(m.last_name, "last_name"@),
                    or_else(
                        optional_text_fault(m.username, "username"@),
                        or_else(
                            optional_text_fault(m.language_code, "language_code"@),
                            or_else(
                                flag_fault(m.is_premium, "is_premium"@),
                                or_else(
                                    flag_fault(
                                        m.added_to_attachment_menu,
                                        "added_to_attachment_menu"@,
                                    ),
                                    or_else(
                                        flag_fault(m.allows_write_to_pm, "allows_write_to_pm"@),
                                        optional_text_fault(m.photo_url, "photo_url"@),
                                    ),
                                ),
                            ),
                        ),
                    ),
                ),
            ),
        ),
    )
}

/// The record that faultless members make.
pub open spec fn record_of(m: UserMembersView) -> UserView {
    UserView {
        id: number_in(m.id),
        is_bot: optional_bool_in(m.is_bot),
        first_name: text_in(m.first_name),
        last_name: optional_text_in(m.last_name),
        username: optional_text_in(m.username),
        language_code: optional_text_in(m.language_code),
        is_premium: flag_in(m.is_premium),
        added_to_attachment_menu: flag_in(m.added_to_attachment_menu),
        allows_write_to_pm: flag_in(m.allows_write_to_pm),
        photo_url: optional_text_in(m.photo_url),
    }
}

/// The record that the members decode into, or the first thing that is wrong
/// with them.
pub open spec fn decoded_members(m: UserMembersView) -> Result<UserView, JsonFault> {
    match first_fault(m) {
        Some(fault) => Err(fault),
        None => Ok(record_of(m)),
    }
}

/// The members of a user record as a decoder sees them in a document.
pub open spec fn members_seen(json: Json) -> UserMembersView {
    UserMembersView {
        id: member_seen(json, "id"@),
        is_bot: member_seen(json, "is_bot"@),
        first_name: member_seen(json, "first_name"@),
        last_name: member_seen(json, "last_name"@),
        username: member_seen(json, "username"@),
        language_code: member_seen(json, "language_code"@),
        is_premium: member_seen(json, "is_premium"@),
        added_to_attachment_menu: member_seen(json, "added_to_attachment_menu"@),
        allows_write_to_pm: member_seen(json, "allows_write_to_pm"@),
        photo_url: member_seen(json, "photo_url"@),
    }
}

/// The record that a document decodes into. Members that the record does not
/// know are passed over.
pub open spec fn decoded_json(json: Json) -> Result<UserView, JsonFault> {
    if json is Object {
        decoded_members(members_seen(json))
    } else {
        Err(JsonFault::NotAnObject)
    }
}

/// The record that a text decodes into.
pub open spec fn decoded_user(text: Seq<char>) -> Result<UserView, JsonFault> {
    match json_text(text) {
        Some(json) => decoded_json(json),
        None => Err(JsonFault::Syntax),
    }
}

/// A result with its two sides as they are spoken of in contracts.
pub open spec fn user_outcome(result: Result<WebAppUser, JsonError>) -> Result<
    UserView,
    JsonFault,
> {
    match result {
        Ok(user) => Ok(user@),
        Err(error) => Err(error@),
    }
}

fn take_number(member: Member, name: &'static str) -> (taken: Result<i64, JsonError>)
    ensures
        match number_fault(member@, name@) {
            Some(fault) => taken matches Err(error) && error@ == fault,
            None => taken == Ok::<i64, JsonError>(number_in(member@)),
        },
{
    match member {
        Member::Integer(n) => Ok(n),
        Member::Absent => Err(JsonError::MissingField(name)),
        _ => Err(JsonError::InvalidType(name)),
    }
}

fn take_text(member: Member, name: &'static str) -> (taken: Result<String, JsonError>)
    ensures
        match text_fault(member@, name@) {
            Some(fault) => taken matches Err(error) && error@ == fault,
            None => taken matches Ok(text) && text@ == text_in(member@),
        },
{
    match member {
        Member::Text(s) => Ok(s),
        Member::Absent => Err(JsonError::MissingField(name)),
        _ => Err(JsonError::InvalidType(name)),
    }
}

fn take_optional_text(member: Member, name: &'static str) -> (taken: Result<
    Option<String>,
    JsonError,
>)
    ensures
        match optional_text_fault(member@, name@) {
            Some(fault) => taken matches Err(error) && error@ == fault,
            None => taken matches Ok(text) && optional_text(text) == optional_text_in(member@),
        },
{
    match member {
        Member::Text(s) => Ok(Some(s)),
        Member::Absent => Ok(None),
        Member::Null => Ok(None),
        _ => Err(JsonError::InvalidType(name)),
    }
}

fn take_optional_bool(member: Member, name: &'static str) -> (taken: Result<
    Option<bool>,
    JsonError,
>)
    ensures
        match optional_bool_fault(member@, name@) {
            Some(fault) => taken matches Err(error) && error@ == fault,
            None => taken == Ok::<Option<bool>, JsonError>(optional_bool_in(member@)),
        },
{
    match member {
        Member::Bool(b) => Ok(Some(b)),
        Member::Absent => Ok(None),
        Member::Null => Ok(None),
        _ => Err(JsonError::InvalidType(name)),
    }
}

fn take_flag(member: Member, name: &'static str) -> (taken: Result<bool, JsonError>)
    ensures
        match flag_fault(member@, name@) {
            Some(fault) => taken matches Err(error) && error@ == fault,
            None => taken == Ok::<bool, JsonError>(flag_in(member@)),
        },
{
    match member {
        Member::Bool(b) => Ok(b),
        Member::Absent => Ok(false),
        _ => Err(JsonError::InvalidType(name)),
    }
}

impl WebAppUser {
    /// Makes a record of the members of an object. The identifier and the
    /// first name must be there; the three flags are `false` where they are
    /// left out; every other member may be left out or `null`. The members
    /// are looked at in the order of the record's fields, and the first one
    /// that is missing or of the wrong kind is reported.
    pub fn from_members(members: UserMembers) -> (result: Result<WebAppUser, JsonError>)
        ensures
            user_outcome(result) == decoded_members(members@),
    {
        let id = take_number(members.id, "id")?;
        let is_bot = take_optional_bool(members.is_bot, "is_bot")?;
        let first_name = take_text(members.first_name, "first_name")?;
        let last_name = take_optional_text(members.last_name, "last_name")?;
        let username = take_optional_text(members.username, "username")?;
        let language_code = take_optional_text(members.language_code, "language_code")?;
        let is_premium = take_flag(members.is_premium, "is_premium")?;
        let added_to_attachment_menu = take_flag(
            members.added_to_attachment_menu,
            "added_to_attachment_menu",
        )?;
        let allows_write_to_pm = take_flag(members.allows_write_to_pm, "allows_write_to_pm")?;
        let photo_url = take_optional_text(members.photo_url, "photo_url")?;
        Ok(
            WebAppUser {
                id,
                is_bot,
                first_name,
                last_name,
                username,
                language_code,
                is_premium,
                added_to_attachment_menu,
                allows_write_to_pm,
                photo_url,
            },
        )
    }

    /// Makes a record of a parsed document: the document must be an object,
    /// and its members must make a record as `from_members` says. Members
    /// that the record does not know are passed over.
    pub fn from_value(value: &serde_json::Value) -> (result: Result<WebAppUser, JsonError>)
        ensures
            user_outcome(result) == decoded_json(json_of(*value)),
    {
        if !value.is_object() {
            return Err(JsonError::NotAnObject);
        }
        let members = UserMembers {
            id: read_member(value, "id"),
            is_bot: read_member(value, "is_bot"),
            first_name: read_member(value, "first_name"),
            last_name: read_member(value, "last_name"),
            username: read_member(value, "username"),
            language_code: read_member(value, "language_code"),
            is_premium: read_member(value, "is_premium"),
            added_to_attachment_menu: read_member(value, "added_to_attachment_menu"),
            allows_write_to_pm: read_member(value, "allows_write_to_pm"),
            photo_url: read_member(value, "photo_url"),
        };
        WebAppUser::from_members(members)
    }

    /// Decodes a record from JSON text: the text must be one JSON document,
    /// and the document must make a record as `from_value` says. Of two
    /// members with one name the later one counts.
    pub fn from_json(text: &str) -> (result: Result<WebAppUser, JsonError>)
        ensures
            user_outcome(result) == decoded_user(text@),
    {
        match parse_value(text) {
            Ok(value) => WebAppUser::from_value(&value),
            Err(message) => Err(JsonError::Syntax(message)),
        }
    }

    /// The identifier of the user.
    pub fn id(&self) -> (id: i64)
        ensures
            id == self@.id,
    {
        self.id
    }

    /// Whether the user is a bot, where the platform says so.
    pub fn is_bot(&self) -> (is_bot: Option<bool>)
        ensures
            is_bot == self@.is_bot,
    {
        self.is_bot
    }

    /// The first name of the user.
    pub fn first_name(&self) -> (name: &str)
        ensures
            name@ == self@.first_name,
    {
        self.first_name.as_str()
    }

    /// The last name of the user, if it has one.
    pub fn last_name(&self) -> (name: Option<&str>)
        ensures
            borrowed_text(name) == self@.last_name,
    {
        borrow_text(&self.last_name)
    }

    /// The user name, if the user has one.
    pub fn username(&self) -> (name: Option<&str>)
        ensures
            borrowed_text(name) == self@.username,
    {
        borrow_text(&self.username)
    }

    /// The language tag of the user's client, if it is known.
    pub fn language_code(&self) -> (code: Option<&str>)
        ensures
            borrowed_text(code) == self@.language_code,
    {
        borrow_text(&self.language_code)
    }

    /// Whether the user has a premium subscription.
    pub fn is_premium(&self) -> (flag: bool)
        ensures
            flag == self@.is_premium,
    {
        self.is_premium
    }

    /// Whether the user added the application to the attachment menu.
    pub fn added_to_attachment_menu(&self) -> (flag: bool)
        ensures
            flag == self@.added_to_attachment_menu,
    {
        self.added_to_attachment_menu
    }

    /// Whether the user allowed the application to write to them.
    pub fn allows_write_to_pm(&self) -> (flag: bool)
        ensures
            flag == self@.allows_write_to_pm,
    {
        self.allows_write_to_pm
    }

    /// The address of the user's picture, if it has one.
    pub fn photo_url(&self) -> (url: Option<&str>)
        ensures
            borrowed_text(url) == self@.photo_url,
    {
        borrow_text(&self.photo_url)
    }
}

/// An optional borrowed string as an optional sequence of characters.
pub open spec fn borrowed_text(text: Option<&str>) -> Option<Seq<char>> {
    match text {
        Some(s) => Some(s@),
        None => None,
    }
}

fn borrow_text(text: &Option<String>) -> (borrowed: Option<&str>)
    ensures
        borrowed_text(borrowed) == optional_text(*text),
{
    match text {
        Some(s) => Some(s.as_str()),
        None => None,
    }
}

} // verus!
