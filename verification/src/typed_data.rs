//! Typed-data hashing: type hashes, struct hashes, the domain separator and
//! the digest that a signer signs.
//!
//! Every digest is stated over [`keccak256`], the name of the hash primitive,
//! and [`encode_tokens`], the encoding of a token sequence.

use vstd::prelude::*;
use vstd::utf8::encode_utf8;
use crate::primitives::{keccak256, keccak256_array};
use crate::schema::{Field, FieldView, StructType, StructTypeView};
use crate::token::{
    all_encodable, encode_tokens, encode_words, find_unencodable, first_unencodable,
    lemma_encode_tokens_push, token_views, zero_bytes, EncodeError, Token, TokenView, Uint256,
};

verus! {

/// The type string of [`LinkingAccount`].
pub const LINKING_ACCOUNT_TYPE: &'static str = "LinkingAccount(string origin_id,string account_id)";

/// The type string of [`LinkingAccounts`]: the primary type, then the type it
/// refers to.
pub const LINKING_ACCOUNTS_TYPE: &'static str =
    "LinkingAccounts(LinkingAccount account_a,LinkingAccount account_b)LinkingAccount(string origin_id,string account_id)";

/// The type string of a signing domain.
pub const DOMAIN_TYPE: &'static str =
    "EIP712Domain(string name,string version,uint256 chainId,address verifyingContract)";

/// The name of the one domain that digests are bound to.
pub const DOMAIN_NAME: &'static str = "Connected Accounts";

/// The version of that domain.
pub const DOMAIN_VERSION: &'static str = "1";

/// The chain id of that domain.
pub const DOMAIN_CHAIN_ID: u64 = 5;

/// The statement that an origin identity maps to an account identity.
#[derive(Clone, Debug, PartialEq, Eq)]
pub struct LinkingAccount {
    pub origin_id: String,
    pub account_id: String,
}

/// What a [`LinkingAccount`] stands for.
pub struct LinkingAccountView {
    pub origin_id: Seq<char>,
    pub account_id: Seq<char>,
}

impl View for LinkingAccount {
    type V = LinkingAccountView;

    open spec fn view(&self) -> LinkingAccountView {
        LinkingAccountView { origin_id: self.origin_id@, account_id: self.account_id@ }
    }
}

/// The message that is attested: two linked accounts, in this order.
#[derive(Clone, Debug, PartialEq, Eq)]
pub struct LinkingAccounts {
    pub account_a: LinkingAccount,
    pub account_b: LinkingAccount,
}

/// What a [`LinkingAccounts`] stands for.
pub struct LinkingAccountsView {
    pub account_a: LinkingAccountView,
    pub account_b: LinkingAccountView,
}

impl View for LinkingAccounts {
    type V = LinkingAccountsView;

    open spec fn view(&self) -> LinkingAccountsView {
        LinkingAccountsView { account_a: self.account_a@, account_b: self.account_b@ }
    }
}

/// A signing domain: the application, its version, and the chain and contract
/// that a signature is bound to.
#[derive(Clone, Debug)]
pub struct Domain {
    pub name: String,
    pub version: String,
    pub chain_id: Uint256,
    pub verifying_contract: [u8; 20],
}

/// What a [`Domain`] stands for.
pub struct DomainView {
    pub name: Seq<char>,
    pub version: Seq<char>,
    pub chain_id: nat,
    pub verifying_contract: Seq<u8>,
}

impl View for Domain {
    type V = DomainView;

    open spec fn view(&self) -> DomainView {
        DomainView {
            name: self.name@,
            version: self.version@,
            chain_id: self.chain_id.value(),
            verifying_contract: self.verifying_contract@,
        }
    }
}

/// A field of a struct type, seen as its type and its name.
pub open spec fn field(field_type: Seq<char>, name: Seq<char>) -> FieldView {
    FieldView { field_type, name }
}

/// The struct type of a linking account.
pub open spec fn linking_account_schema() -> StructTypeView {
    StructTypeView {
        name: "LinkingAccount"@,
        fields: seq![field("string"@, "origin_id"@), field("string"@, "account_id"@)],
    }
}

/// The struct type of a pair of linking accounts.
pub open spec fn linking_accounts_schema() -> StructTypeView {
    StructTypeView {
        name: "LinkingAccounts"@,
        fields: seq![
            field("LinkingAccount"@, "account_a"@),
            field("LinkingAccount"@, "account_b"@),
        ],
    }
}

/// The struct type of a signing domain.
pub open spec fn domain_schema() -> StructTypeView {
    StructTypeView {
        name: "EIP712Domain"@,
        fields: seq![
            field("string"@, "name"@),
            field("string"@, "version"@),
            field("uint256"@, "chainId"@),
            field("address"@, "verifyingContract"@),
        ],
    }
}

/// A field with the given type and name.
fn new_field(field_type: &str, name: &str) -> (made: Field)
    ensures
        made@ == field(field_type@, name@),
{
    Field { field_type: field_type.to_owned(), name: name.to_owned() }
}

impl LinkingAccount {
    /// The struct type of a linking account.
    pub fn struct_type() -> (ty: StructType)
        ensures
            ty@ == linking_account_schema(),
    {
        let fields = vec![new_field("string", "origin_id"), new_field("string", "account_id")];
        let ty = StructType { name: "LinkingAccount".to_owned(), fields };
        assert(ty@.fields =~= linking_account_schema().fields);
        ty
    }
}

impl LinkingAccounts {
    /// The struct type of a pair of linking accounts. It refers to that of a
    /// linking account.
    pub fn struct_type() -> (ty: StructType)
        ensures
            ty@ == linking_accounts_schema(),
    {
        let fields = vec![
            new_field("LinkingAccount", "account_a"),
            new_field("LinkingAccount", "account_b"),
        ];
        let ty = StructType { name: "LinkingAccounts".to_owned(), fields };
        assert(ty@.fields =~= linking_accounts_schema().fields);
        ty
    }
}

impl Domain {
    /// The struct type of a signing domain.
    pub fn struct_type() -> (ty: StructType)
        ensures
            ty@ == domain_schema(),
    {
        let fields = vec![
            new_field("string", "name"),
            new_field("string", "version"),
            new_field("uint256", "chainId"),
            new_field("address", "verifyingContract"),
        ];
        let ty = StructType { name: "EIP712Domain".to_owned(), fields };
        assert(ty@.fields =~= domain_schema().fields);
        ty
    }
}

/// The digest of a text: the Keccak-256 digest of its UTF-8 bytes. A type
/// hash is the digest of a type string; a text field enters a struct hash as
/// the digest of its value.
pub open spec fn text_digest(text: Seq<char>) -> Seq<u8> {
    keccak256(encode_utf8(text))@
}

/// The bytes that are hashed for a struct: the words of its type hash and of
/// its fields.
pub open spec fn struct_preimage(type_hash: Seq<u8>, fields: Seq<TokenView>) -> Seq<u8> {
    encode_tokens(seq![TokenView::FixedBytes(type_hash)] + fields)
}

/// The struct hash of a struct with the given type hash and field tokens.
pub open spec fn struct_digest(type_hash: Seq<u8>, fields: Seq<TokenView>) -> Seq<u8> {
    keccak256(struct_preimage(type_hash, fields))@
}

/// The field tokens of a linking account: the digests of its two texts.
pub open spec fn linking_account_fields(account: LinkingAccountView) -> Seq<TokenView> {
    seq![
        TokenView::FixedBytes(text_digest(account.origin_id)),
        TokenView::FixedBytes(text_digest(account.account_id)),
    ]
}

/// The struct hash of a linking account.
pub open spec fn linking_account_digest(account: LinkingAccountView) -> Seq<u8> {
    struct_digest(text_digest(LINKING_ACCOUNT_TYPE@), linking_account_fields(account))
}

/// The field tokens of a pair of linking accounts: the struct hashes of the
/// two accounts, `account_a` first.
pub open spec fn linking_accounts_fields(pair: LinkingAccountsView) -> Seq<TokenView> {
    seq![
        TokenView::FixedBytes(linking_account_digest(pair.account_a)),
        TokenView::FixedBytes(linking_account_digest(pair.account_b)),
    ]
}

/// The struct hash of a pair of linking accounts.
pub open spec fn linking_accounts_digest(pair: LinkingAccountsView) -> Seq<u8> {
    struct_digest(text_digest(LINKING_ACCOUNTS_TYPE@), linking_accounts_fields(pair))
}

/// The field tokens of a domain.
pub open spec fn domain_fields(domain: DomainView) -> Seq<TokenView> {
    seq![
        TokenView::FixedBytes(text_digest(domain.name)),
        TokenView::FixedBytes(text_digest(domain.version)),
        TokenView::UnsignedInt(domain.chain_id),
        TokenView::Address(domain.verifying_contract),
    ]
}

/// The struct hash of a domain: its separator.
pub open spec fn domain_digest(domain: DomainView) -> Seq<u8> {
    struct_digest(text_digest(DOMAIN_TYPE@), domain_fields(domain))
}

/// The one domain that this library signs for: "Connected Accounts",
/// version "1", chain 5, the zero contract address.
pub open spec fn connected_accounts_domain() -> DomainView {
    DomainView {
        name: DOMAIN_NAME@,
        version: DOMAIN_VERSION@,
        chain_id: DOMAIN_CHAIN_ID as nat,
        verifying_contract: zero_bytes(20),
    }
}

/// The separator of [`connected_accounts_domain`]. It depends on nothing.
pub open spec fn domain_separator_digest() -> Seq<u8> {
    domain_digest(connected_accounts_domain())
}

/// The bytes that are hashed for signing: `0x19`, `0x01`, the domain
/// separator, the struct hash.
pub open spec fn signing_preimage(domain_separator: Seq<u8>, struct_hash: Seq<u8>) -> Seq<u8> {
    seq![0x19u8, 0x01u8] + domain_separator + struct_hash
}

/// The digest that a signer of `pair` signs.
pub open spec fn signing_digest(pair: LinkingAccountsView) -> Seq<u8> {
    keccak256(signing_preimage(domain_separator_digest(), linking_accounts_digest(pair)))@
}

/// The encoding of two 32-byte values is the one followed by the other.
pub proof fn lemma_encode_two_digests(first: Seq<u8>, second: Seq<u8>)
    requires
        first.len() == 32,
        second.len() == 32,
    ensures
        encode_tokens(seq![TokenView::FixedBytes(first), TokenView::FixedBytes(second)]) == first
            + second,
{
    let a = TokenView::FixedBytes(first);
    let b = TokenView::FixedBytes(second);
    let none = Seq::<TokenView>::empty();
    lemma_encode_tokens_push(none, a);
    lemma_encode_tokens_push(none.push(a), b);
    assert(none.push(a).push(b) =~= seq![a, b]);
    assert(encode_tokens(none) =~= Seq::<u8>::empty());
    assert(encode_tokens(none) + first + second =~= first + second);
}

/// The Keccak-256 digest of the UTF-8 bytes of `text`.
pub fn hash_text(text: &str) -> (digest: [u8; 32])
    ensures
        digest@ == text_digest(text@),
{
    keccak256_array(text.as_bytes())
}

/// The bytes that are hashed for a struct whose field tokens are known to
/// encode.
pub(crate) fn encode_fields(type_hash: &[u8; 32], fields: Vec<Token>) -> (bytes: Vec<u8>)
    requires
        all_encodable(token_views(fields@)),
    ensures
        bytes@ == struct_preimage(type_hash@, token_views(fields@)),
{
    let ghost field_views = token_views(fields@);
    let mut tokens = fields;
    tokens.insert(0, Token::digest(type_hash));
    assert(token_views(tokens@) =~= seq![TokenView::FixedBytes(type_hash@)] + field_views);
    assert(all_encodable(token_views(tokens@))) by {
        assert forall|i: int| 0 <= i < token_views(tokens@).len() implies (
        #[trigger] token_views(tokens@)[i]).encodable() by {
            if i > 0 {
                assert(token_views(tokens@)[i] == field_views[i - 1]);
            }
        }
    }
    encode_words(tokens.as_slice())
}

/// The struct hash for field tokens that are known to encode.
pub(crate) fn hash_fields(type_hash: &[u8; 32], fields: Vec<Token>) -> (digest: [u8; 32])
    requires
        all_encodable(token_views(fields@)),
    ensures
        digest@ == struct_digest(type_hash@, token_views(fields@)),
{
    let preimage = encode_fields(type_hash, fields);
    keccak256_array(preimage.as_slice())
}

/// The bytes that are hashed for a struct, from its type hash and its field
/// tokens in declaration order: the word of the type hash, then the words of
/// the fields. Fails where a field does not encode, and names the first such
/// field.
pub fn encode_struct(type_hash: &[u8; 32], fields: Vec<Token>) -> (result: Result<
    Vec<u8>,
    EncodeError,
>)
    ensures
        match result {
            Ok(bytes) => {
                &&& all_encodable(token_views(fields@))
                &&& bytes@ == struct_preimage(type_hash@, token_views(fields@))
                &&& bytes@.len() == 32 + 32 * fields@.len()
            },
            Err(EncodeError::FixedBytesLength { index }) => first_unencodable(
                token_views(fields@),
                index as int,
            ),
        },
{
    match find_unencodable(fields.as_slice()) {
        Some(index) => Err(EncodeError::FixedBytesLength { index }),
        None => Ok(encode_fields(type_hash, fields)),
    }
}

/// The struct hash of a struct, from its type hash and its field tokens in
/// declaration order: the digest of the bytes that [`encode_struct`] gives.
/// Fails where a field does not encode, and names the first such field.
pub fn hash_struct(type_hash: &[u8; 32], fields: Vec<Token>) -> (result: Result<
    [u8; 32],
    EncodeError,
>)
    ensures
        match result {
            Ok(digest) => {
                &&& all_encodable(token_views(fields@))
                &&& digest@ == struct_digest(type_hash@, token_views(fields@))
            },
            Err(EncodeError::FixedBytesLength { index }) => first_unencodable(
                token_views(fields@),
                index as int,
            ),
        },
{
    match encode_struct(type_hash, fields) {
        Ok(preimage) => Ok(keccak256_array(preimage.as_slice())),
        Err(error) => Err(error),
    }
}

/// The struct hash of a linking account.
pub fn hash_linking_account(account: &LinkingAccount) -> (digest: [u8; 32])
    ensures
        digest@ == linking_account_digest(account@),
{
    let type_hash = hash_text(LINKING_ACCOUNT_TYPE);
    let origin_id = hash_text(account.origin_id.as_str());
    let account_id = hash_text(account.account_id.as_str());
    let fields = vec![Token::digest(&origin_id), Token::digest(&account_id)];
    assert(token_views(fields@) =~= linking_account_fields(account@));
    hash_fields(&type_hash, fields)
}

/// The struct hash of a pair of linking accounts, without any domain.
pub fn hash_linking_accounts_no_domain(pair: &LinkingAccounts) -> (digest: [u8; 32])
    ensures
        digest@ == linking_accounts_digest(pair@),
{
    let type_hash = hash_text(LINKING_ACCOUNTS_TYPE);
    let account_a = hash_linking_account(&pair.account_a);
    let account_b = hash_linking_account(&pair.account_b);
    let fields = vec![Token::digest(&account_a), Token::digest(&account_b)];
    assert(token_views(fields@) =~= linking_accounts_fields(pair@));
    hash_fields(&type_hash, fields)
}

/// The separator of a domain.
pub fn hash_domain(domain: &Domain) -> (digest: [u8; 32])
    ensures
        digest@ == domain_digest(domain@),
{
    let type_hash = hash_text(DOMAIN_TYPE);
    let name = hash_text(domain.name.as_str());
    let version = hash_text(domain.version.as_str());
    let fields = vec![
        Token::digest(&name),
        Token::digest(&version),
        Token::UnsignedInt(domain.chain_id),
        Token::Address(domain.verifying_contract),
    ];
    proof {
        domain.chain_id.lemma_value_bound();
    }
    assert(token_views(fields@) =~= domain_fields(domain@));
    hash_fields(&type_hash, fields)
}

/// The separator of the one domain that this library signs for.
pub fn domain_separator() -> (digest: [u8; 32])
    ensures
        digest@ == domain_separator_digest(),
{
    let domain = Domain {
        name: DOMAIN_NAME.to_owned(),
        version: DOMAIN_VERSION.to_owned(),
        chain_id: Uint256::from_u64(DOMAIN_CHAIN_ID),
        verifying_contract: [0u8; 20],
    };
    assert(domain.verifying_contract@ =~= zero_bytes(20));
    hash_domain(&domain)
}

/// The bytes that are hashed for signing a struct hash under a domain
/// separator: `0x19`, `0x01`, the separator, the struct hash.
pub fn signing_message(domain_separator: &[u8; 32], struct_hash: &[u8; 32]) -> (message: Vec<u8>)
    ensures
        message@ == signing_preimage(domain_separator@, struct_hash@),
        message@.len() == 66,
{
    let mut message: Vec<u8> = vec![0x19u8, 0x01u8];
    let tokens = vec![Token::digest(domain_separator), Token::digest(struct_hash)];
    assert(token_views(tokens@) =~= seq![
        TokenView::FixedBytes(domain_separator@),
        TokenView::FixedBytes(struct_hash@),
    ]);
    let mut body = encode_words(tokens.as_slice());
    proof {
        lemma_encode_two_digests(domain_separator@, struct_hash@);
    }
    message.append(&mut body);
    assert(message@ =~= signing_preimage(domain_separator@, struct_hash@));
    message
}

/// The digest to sign for a struct hash under a domain separator: the digest
/// of the bytes that [`signing_message`] gives.
pub fn assemble_digest(domain_separator: &[u8; 32], struct_hash: &[u8; 32]) -> (digest: [u8; 32])
    ensures
        digest@ == keccak256(signing_preimage(domain_separator@, struct_hash@))@,
{
    let message = signing_message(domain_separator, struct_hash);
    keccak256_array(message.as_slice())
}

/// The digest that a signer of `pair` signs, under the library's domain.
pub fn hash_linking_accounts(pair: &LinkingAccounts) -> (digest: [u8; 32])
    ensures
        digest@ == signing_digest(pair@),
{
    let separator = domain_separator();
    let struct_hash = hash_linking_accounts_no_domain(pair);
    assemble_digest(&separator, &struct_hash)
}

} // verus!
