//! What holds of every validation.

use vstd::prelude::*;
use crate::error::Failure;
use crate::form::form_pairs;
use crate::init_data::{decoded_fields, decoded_record, refused, validated, validation};
use crate::json::MemberView;
use crate::number::decimal_u64;
use crate::pairs::{distinct_names, lemma_order_independent, pairs_map, signing_text};
use crate::signature::signature_of;
use crate::user::{decoded_members, decoded_user, flag_fault, UserMembersView};

verus! {

/// The fields carry the signature of the application with `token`: they have
/// a field `hash`, and it is the signature of the others.
pub open spec fn signed(token: Seq<char>, all: Map<Seq<char>, Seq<char>>) -> bool {
    &&& all.contains_key("hash"@)
    &&& all["hash"@] == signature_of(token, signing_text(all.remove("hash"@)))
}

/// A payload that is signed for the token is never refused for its
/// signature: its validation comes to what its other fields decode into. So
/// where these are well formed it succeeds, and the record holds what they
/// say: the signing time that `auth_date` writes, and the record of `user`
/// and of `receiver` where, and only where, the payload has that field.
pub proof fn lemma_signed_payload_accepted(token: Seq<char>, raw: Seq<u8>)
    requires
        signed(token, pairs_map(form_pairs(raw))),
    ensures
        validation(token, raw) == decoded_fields(pairs_map(form_pairs(raw)).remove("hash"@)),
        validation(token, raw) matches Ok(data) ==> {
            let fields = pairs_map(form_pairs(raw)).remove("hash"@);
            &&& fields.contains_key("auth_date"@)
            &&& decimal_u64(fields["auth_date"@]) == Some(data.auth_date)
            &&& data.user is Some <==> fields.contains_key("user"@)
            &&& data.user matches Some(user) ==> decoded_user(fields["user"@]) is Ok
                && decoded_user(fields["user"@])->Ok_0 == user
            &&& data.receiver is Some <==> fields.contains_key("receiver"@)
            &&& data.receiver matches Some(receiver) ==> decoded_user(fields["receiver"@]) is Ok
                && decoded_user(fields["receiver"@])->Ok_0 == receiver
        },
        decoded_fields(pairs_map(form_pairs(raw)).remove("hash"@)) is Ok ==> validation(
            token,
            raw,
        ) is Ok,
{
}

/// A payload whose `hash` is anything but the signature of its other fields
/// is refused for its signature, whatever else it holds.
pub proof fn lemma_wrong_signature_refused(token: Seq<char>, all: Map<Seq<char>, Seq<char>>)
    requires
        all.contains_key("hash"@),
        all["hash"@] != signature_of(token, signing_text(all.remove("hash"@))),
    ensures
        refused(validated(token, all), Failure::InvalidHash),
{
}

/// Once a payload is signed, no other claim passes for it: with any other
/// value in `hash` and the same other fields it is refused for its signature.
pub proof fn lemma_altered_claim_refused(
    token: Seq<char>,
    all: Map<Seq<char>, Seq<char>>,
    claim: Seq<char>,
)
    requires
        signed(token, all),
        claim != all["hash"@],
    ensures
        refused(validated(token, all.insert("hash"@, claim)), Failure::InvalidHash),
{
    assert(all.insert("hash"@, claim).remove("hash"@) =~= all.remove("hash"@));
}

/// The order in which a payload gives its fields does not matter: two
/// payloads that hold the same pairs, each name once, validate alike.
pub proof fn lemma_validation_order_independent(token: Seq<char>, first: Seq<u8>, second: Seq<u8>)
    requires
        distinct_names(form_pairs(first)),
        form_pairs(first).to_multiset() == form_pairs(second).to_multiset(),
    ensures
        validation(token, first) == validation(token, second),
{
    lemma_order_independent(form_pairs(first), form_pairs(second));
}

/// A payload without `hash` is refused for that, whatever else it holds.
pub proof fn lemma_missing_hash(token: Seq<char>, all: Map<Seq<char>, Seq<char>>)
    requires
        !all.contains_key("hash"@),
    ensures
        refused(validated(token, all), Failure::MissingField("hash"@)),
{
}

/// A signed payload whose records decode is refused for its `auth_date` where
/// it has none, and where the one it has is no number.
pub proof fn lemma_bad_auth_date(token: Seq<char>, all: Map<Seq<char>, Seq<char>>)
    requires
        signed(token, all),
        decoded_record(all.remove("hash"@), "user"@) is Ok,
        decoded_record(all.remove("hash"@), "receiver"@) is Ok,
    ensures
        !all.contains_key("auth_date"@) ==> refused(
            validated(token, all),
            Failure::MissingField("auth_date"@),
        ),
        all.contains_key("auth_date"@) && decimal_u64(all["auth_date"@]) is None ==> refused(
            validated(token, all),
            Failure::InvalidNumericField("auth_date"@),
        ),
{
    reveal_strlit("hash");
    reveal_strlit("auth_date");
    assert("hash"@ != "auth_date"@) by {
        assert("hash"@.len() != "auth_date"@.len());
    }
}

/// A signed payload whose `user` does not decode is refused for that, with
/// the reason why it does not, whatever its other fields hold.
pub proof fn lemma_bad_user(token: Seq<char>, all: Map<Seq<char>, Seq<char>>)
    requires
        signed(token, all),
        all.contains_key("user"@),
        decoded_user(all["user"@]) is Err,
    ensures
        refused(
            validated(token, all),
            Failure::InvalidJson("user"@, decoded_user(all["user"@])->Err_0),
        ),
{
    reveal_strlit("hash");
    reveal_strlit("user");
    assert("hash"@ != "user"@) by {
        assert("hash"@[0] != "user"@[0]);
    }
}

/// A flag that an object leaves out is no fault, and is `false` in the
/// record.
pub proof fn lemma_flags_default(m: UserMembersView)
    ensures
        flag_fault(MemberView::Absent, "is_premium"@) is None,
        decoded_members(m) matches Ok(user) ==> {
            &&& m.is_premium is Absent ==> !user.is_premium
            &&& m.added_to_attachment_menu is Absent ==> !user.added_to_attachment_menu
            &&& m.allows_write_to_pm is Absent ==> !user.allows_write_to_pm
        },
{
}

} // verus!
