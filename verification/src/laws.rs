//! What holds for all inputs.
//!
//! Each digest is injective, short of a collision of Keccak-256 between
//! values that the statement names: so the order of the two accounts is
//! significant, and a change to any text changes the digest that is signed.
//! The three type strings that are hashed are the canonical type strings of
//! the three struct types.

use vstd::prelude::*;
use vstd::utf8::{encode_utf8, encode_utf8_decode_utf8, is_ascii_chars, is_ascii_chars_encode_utf8};
use crate::primitives::keccak256;
use crate::schema::{
    canonical_order, field_signature, fields_signature, lemma_canonical_order_unique, order_of,
    signatures_in_order, stands_in, struct_signature, type_names, type_string, StructTypeView,
    COMMA,
};
use crate::token::{all_encodable, lemma_encode_tokens_word, TokenView};
use crate::typed_data::{
    domain_schema, domain_separator_digest, linking_account_digest, linking_account_fields,
    linking_account_schema, linking_accounts_digest, linking_accounts_fields,
    linking_accounts_schema, signing_digest, signing_preimage, struct_preimage, text_digest,
    LinkingAccountView, LinkingAccountsView, DOMAIN_TYPE, LINKING_ACCOUNTS_TYPE,
    LINKING_ACCOUNT_TYPE,
};

verus! {

/// Two different byte strings with the same Keccak-256 digest.
pub open spec fn keccak_collision(x: Seq<u8>, y: Seq<u8>) -> bool {
    x != y && keccak256(x)@ == keccak256(y)@
}

/// The bytes that are hashed for a linking account.
pub open spec fn linking_account_preimage(account: LinkingAccountView) -> Seq<u8> {
    struct_preimage(text_digest(LINKING_ACCOUNT_TYPE@), linking_account_fields(account))
}

/// The bytes that are hashed for a pair of linking accounts.
pub open spec fn linking_accounts_preimage(pair: LinkingAccountsView) -> Seq<u8> {
    struct_preimage(text_digest(LINKING_ACCOUNTS_TYPE@), linking_accounts_fields(pair))
}

/// A collision among the values that are hashed for two linking accounts:
/// between their origin ids, their account ids, or their encoded structs.
pub open spec fn linking_account_collision(a: LinkingAccountView, b: LinkingAccountView) -> bool {
    ||| keccak_collision(encode_utf8(a.origin_id), encode_utf8(b.origin_id))
    ||| keccak_collision(encode_utf8(a.account_id), encode_utf8(b.account_id))
    ||| keccak_collision(linking_account_preimage(a), linking_account_preimage(b))
}

/// A collision among the values that are hashed for two pairs of linking
/// accounts: within their first accounts, within their second accounts, or
/// between their encoded structs.
pub open spec fn linking_accounts_collision(
    p: LinkingAccountsView,
    q: LinkingAccountsView,
) -> bool {
    ||| linking_account_collision(p.account_a, q.account_a)
    ||| linking_account_collision(p.account_b, q.account_b)
    ||| keccak_collision(linking_accounts_preimage(p), linking_accounts_preimage(q))
}

/// Two texts with the same digest are the same text, or their UTF-8 bytes
/// collide.
pub proof fn lemma_text_digest_injective(s: Seq<char>, t: Seq<char>)
    ensures
        text_digest(s) == text_digest(t) ==> s == t || keccak_collision(
            encode_utf8(s),
            encode_utf8(t),
        ),
{
    if text_digest(s) == text_digest(t) && encode_utf8(s) == encode_utf8(t) {
        encode_utf8_decode_utf8(s);
        encode_utf8_decode_utf8(t);
    }
}

/// Two structs of the same type, each with two 32-byte fields, whose encoded
/// forms are equal have equal fields.
proof fn lemma_two_field_preimage_injective(
    type_hash: Seq<u8>,
    a0: Seq<u8>,
    a1: Seq<u8>,
    b0: Seq<u8>,
    b1: Seq<u8>,
)
    requires
        type_hash.len() == 32,
        a0.len() == 32,
        a1.len() == 32,
        b0.len() == 32,
        b1.len() == 32,
        struct_preimage(type_hash, seq![TokenView::FixedBytes(a0), TokenView::FixedBytes(a1)])
            == struct_preimage(
            type_hash,
            seq![TokenView::FixedBytes(b0), TokenView::FixedBytes(b1)],
        ),
    ensures
        a0 == b0,
        a1 == b1,
{
    let head = seq![TokenView::FixedBytes(type_hash)];
    let a = head + seq![TokenView::FixedBytes(a0), TokenView::FixedBytes(a1)];
    let b = head + seq![TokenView::FixedBytes(b0), TokenView::FixedBytes(b1)];
    assert(all_encodable(a));
    assert(all_encodable(b));
    lemma_encode_tokens_word(a, 1);
    lemma_encode_tokens_word(b, 1);
    lemma_encode_tokens_word(a, 2);
    lemma_encode_tokens_word(b, 2);
}

/// The struct hash of a linking account is injective short of a collision:
/// two accounts with the same hash are the same account, or Keccak-256
/// collides on their origin ids, their account ids or their encoded structs.
/// So changing either text changes the hash, unless it yields a collision.
pub proof fn lemma_linking_account_digest_injective(a: LinkingAccountView, b: LinkingAccountView)
    ensures
        linking_account_digest(a) == linking_account_digest(b) ==> a == b
            || linking_account_collision(a, b),
{
    if linking_account_digest(a) == linking_account_digest(b) && !linking_account_collision(a, b) {
        assert(linking_account_preimage(a) == linking_account_preimage(b));
        lemma_two_field_preimage_injective(
            text_digest(LINKING_ACCOUNT_TYPE@),
            text_digest(a.origin_id),
            text_digest(a.account_id),
            text_digest(b.origin_id),
            text_digest(b.account_id),
        );
        lemma_text_digest_injective(a.origin_id, b.origin_id);
        lemma_text_digest_injective(a.account_id, b.account_id);
    }
}

/// The struct hash of a pair of linking accounts is injective short of a
/// collision.
pub proof fn lemma_linking_accounts_digest_injective(
    p: LinkingAccountsView,
    q: LinkingAccountsView,
)
    ensures
        linking_accounts_digest(p) == linking_accounts_digest(q) ==> p == q
            || linking_accounts_collision(p, q),
{
    if linking_accounts_digest(p) == linking_accounts_digest(q) && !linking_accounts_collision(
        p,
        q,
    ) {
        assert(linking_accounts_preimage(p) == linking_accounts_preimage(q));
        lemma_two_field_preimage_injective(
            text_digest(LINKING_ACCOUNTS_TYPE@),
            linking_account_digest(p.account_a),
            linking_account_digest(p.account_b),
            linking_account_digest(q.account_a),
            linking_account_digest(q.account_b),
        );
        lemma_linking_account_digest_injective(p.account_a, q.account_a);
        lemma_linking_account_digest_injective(p.account_b, q.account_b);
    }
}

/// The order of the two accounts is significant: the pair `(a, b)` and the
/// pair `(b, a)` have different struct hashes whenever `a` and `b` differ,
/// short of a collision among the values hashed for the two pairs.
pub proof fn lemma_account_order_is_significant(a: LinkingAccountView, b: LinkingAccountView)
    ensures
        ({
            let ab = LinkingAccountsView { account_a: a, account_b: b };
            let ba = LinkingAccountsView { account_a: b, account_b: a };
            a != b && !linking_accounts_collision(ab, ba) ==> linking_accounts_digest(ab)
                != linking_accounts_digest(ba)
        }),
{
    let ab = LinkingAccountsView { account_a: a, account_b: b };
    let ba = LinkingAccountsView { account_a: b, account_b: a };
    lemma_linking_accounts_digest_injective(ab, ba);
}

/// The signing digest is injective short of a collision: two pairs with the
/// same signing digest are the same pair, or Keccak-256 collides on the
/// values hashed for them or on the two signing preimages. So a signature
/// over one pair is a signature over no other.
pub proof fn lemma_signing_digest_injective(p: LinkingAccountsView, q: LinkingAccountsView)
    ensures
        signing_digest(p) == signing_digest(q) ==> p == q || linking_accounts_collision(p, q)
            || keccak_collision(
            signing_preimage(domain_separator_digest(), linking_accounts_digest(p)),
            signing_preimage(domain_separator_digest(), linking_accounts_digest(q)),
        ),
{
    let separator = domain_separator_digest();
    let hp = linking_accounts_digest(p);
    let hq = linking_accounts_digest(q);
    if signing_preimage(separator, hp) == signing_preimage(separator, hq) {
        assert(hp =~= signing_preimage(separator, hp).subrange(34, 66));
        assert(hq =~= signing_preimage(separator, hq).subrange(34, 66));
        lemma_linking_accounts_digest_injective(p, q);
    }
}

/// The UTF-8 bytes of a text of ASCII characters are its characters.
proof fn lemma_ascii_bytes(text: Seq<char>)
    requires
        is_ascii_chars(text),
    ensures
        encode_utf8(text) == Seq::new(text.len(), |i: int| text[i] as u8),
{
    is_ascii_chars_encode_utf8(text);
    assert(encode_utf8(text) =~= Seq::new(text.len(), |i: int| text[i] as u8));
}

/// The type string that is hashed for a linking account is the canonical
/// type string of its struct type, which refers to no other.
pub proof fn lemma_linking_account_type_string()
    ensures
        encode_utf8(LINKING_ACCOUNT_TYPE@) == type_string(
            linking_account_schema(),
            Seq::empty(),
        ),
{
    let none = Seq::<StructTypeView>::empty();
    assert(canonical_order(type_names(none), Seq::empty()));
    lemma_canonical_order_unique(type_names(none), Seq::empty(), order_of(type_names(none)));
    reveal_strlit("LinkingAccount(string origin_id,string account_id)");
    reveal_strlit("LinkingAccount");
    reveal_strlit("string");
    reveal_strlit("origin_id");
    reveal_strlit("account_id");
    lemma_ascii_bytes(LINKING_ACCOUNT_TYPE@);
    lemma_ascii_bytes("LinkingAccount"@);
    lemma_ascii_bytes("string"@);
    lemma_ascii_bytes("origin_id"@);
    lemma_ascii_bytes("account_id"@);
    let fields = linking_account_schema().fields;
    assert(fields.drop_last() =~= seq![fields[0]]);
    assert(fields_signature(fields) == field_signature(fields[0]) + seq![COMMA]
        + field_signature(fields[1])) by {
        reveal_with_fuel(fields_signature, 3);
    }
    assert(encode_utf8(LINKING_ACCOUNT_TYPE@) =~= type_string(linking_account_schema(), none));
}

/// The type string that is hashed for a pair of linking accounts is the
/// canonical type string of its struct type, which refers to that of a
/// linking account.
pub proof fn lemma_linking_accounts_type_string()
    ensures
        encode_utf8(LINKING_ACCOUNTS_TYPE@) == type_string(
            linking_accounts_schema(),
            seq![linking_account_schema()],
        ),
{
    let referenced = seq![linking_account_schema()];
    let names = type_names(referenced);
    let order = seq![0usize];
    assert(canonical_order(names, order)) by {
        assert(order[0] == 0);
        assert(stands_in(order, 0));
    }
    lemma_canonical_order_unique(names, order, order_of(names));
    assert(signatures_in_order(referenced, order) =~= struct_signature(linking_account_schema()))
        by {
        reveal_with_fuel(signatures_in_order, 2);
    }
    reveal_strlit(
        "LinkingAccounts(LinkingAccount account_a,LinkingAccount account_b)LinkingAccount(string origin_id,string account_id)",
    );
    reveal_strlit("LinkingAccounts");
    reveal_strlit("LinkingAccount");
    reveal_strlit("account_a");
    reveal_strlit("account_b");
    reveal_strlit("string");
    reveal_strlit("origin_id");
    reveal_strlit("account_id");
    lemma_ascii_bytes(LINKING_ACCOUNTS_TYPE@);
    lemma_ascii_bytes("LinkingAccounts"@);
    lemma_ascii_bytes("LinkingAccount"@);
    lemma_ascii_bytes("account_a"@);
    lemma_ascii_bytes("account_b"@);
    lemma_ascii_bytes("string"@);
    lemma_ascii_bytes("origin_id"@);
    lemma_ascii_bytes("account_id"@);
    let outer = linking_accounts_schema().fields;
    let inner = linking_account_schema().fields;
    assert(outer.drop_last() =~= seq![outer[0]]);
    assert(inner.drop_last() =~= seq![inner[0]]);
    assert(fields_signature(outer) == field_signature(outer[0]) + seq![COMMA] + field_signature(
        outer[1],
    )) by {
        reveal_with_fuel(fields_signature, 3);
    }
    assert(fields_signature(inner) == field_signature(inner[0]) + seq![COMMA] + field_signature(
        inner[1],
    )) by {
        reveal_with_fuel(fields_signature, 3);
    }
    assert(encode_utf8(LINKING_ACCOUNTS_TYPE@) =~= type_string(
        linking_accounts_schema(),
        referenced,
    ));
}

/// The type string that is hashed for a signing domain is the canonical type
/// string of its struct type, which refers to no other.
pub proof fn lemma_domain_type_string()
    ensures
        encode_utf8(DOMAIN_TYPE@) == type_string(domain_schema(), Seq::empty()),
{
    let none = Seq::<StructTypeView>::empty();
    assert(canonical_order(type_names(none), Seq::empty()));
    lemma_canonical_order_unique(type_names(none), Seq::empty(), order_of(type_names(none)));
    reveal_strlit(
        "EIP712Domain(string name,string version,uint256 chainId,address verifyingContract)",
    );
    reveal_strlit("EIP712Domain");
    reveal_strlit("string");
    reveal_strlit("name");
    reveal_strlit("version");
    reveal_strlit("uint256");
    reveal_strlit("chainId");
    reveal_strlit("address");
    reveal_strlit("verifyingContract");
    lemma_ascii_bytes(DOMAIN_TYPE@);
    lemma_ascii_bytes("EIP712Domain"@);
    lemma_ascii_bytes("string"@);
    lemma_ascii_bytes("name"@);
    lemma_ascii_bytes("version"@);
    lemma_ascii_bytes("uint256"@);
    lemma_ascii_bytes("chainId"@);
    lemma_ascii_bytes("address"@);
    lemma_ascii_bytes("verifyingContract"@);
    let fields = domain_schema().fields;
    let three = fields.drop_last();
    let two = three.drop_last();
    assert(two.drop_last() =~= seq![fields[0]]);
    assert(fields_signature(two) == field_signature(fields[0]) + seq![COMMA] + field_signature(
        fields[1],
    )) by {
        reveal_with_fuel(fields_signature, 3);
    }
    assert(fields_signature(three) == fields_signature(two) + seq![COMMA] + field_signature(
        fields[2],
    ));
    assert(fields_signature(fields) == fields_signature(three) + seq![COMMA] + field_signature(
        fields[3],
    ));
    assert(encode_utf8(DOMAIN_TYPE@) =~= type_string(domain_schema(), none));
}

} // verus!
