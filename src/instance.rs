//! One NFT instance: its stored identity, its metadata, and the royalty that
//! every transfer must pay.
use vstd::prelude::*;

use crate::alkane::{
    amount_of, amount_received, id_bytes, id_of_bytes, AlkaneId, AlkaneTransfer,
};
use crate::encoding::{
    append_decimal, ascii_bytes, decimal, le_value, lemma_decimal_is_ascii, lemma_u128_le_round_trip,
    push_u128_le, string_to_bytes, u128_from_le_bytes, u128_le,
};
use vstd::utf8::{is_ascii_chars, is_ascii_chars_concat};

verus! {

/// The royalty rate, in basis points (5%).
pub const ROYALTY_PERCENTAGE: u128 = 500;

/// Basis points in a whole.
pub const BASIS_POINTS: u128 = 10000;

/// The least royalty owed on any transfer, in units of the payment token.
pub const MIN_ROYALTY_AMOUNT: u128 = 1000;

/// The first argument of a call that asks the collection for an instance's
/// attributes.
pub const ATTRIBUTES_OPCODE: u128 = 999;

/// The first argument of a call that asks the collection for an instance's
/// raw content.
pub const DATA_OPCODE: u128 = 1000;

/// The name of the instance at `index`.
pub open spec fn name_text(index: u128) -> Seq<char> {
    "Alkane RoyaltyNFT #"@ + decimal(index as nat)
}

/// The symbol of the instance at `index`.
pub open spec fn symbol_text(index: u128) -> Seq<char> {
    "alkane-royalty-nft-"@ + decimal(index as nat)
}

/// The content type that every instance reports.
pub open spec fn content_type_text() -> Seq<char> {
    "image/svg+xml"@
}

/// An identifier as text: block and transaction index in decimal, joined
/// by a colon.
pub open spec fn identifier_text(id: AlkaneId) -> Seq<char> {
    decimal(id.block as nat) + seq![':'] + decimal(id.tx as nat)
}

/// The token class in which royalties are paid.
pub open spec fn payment_token() -> AlkaneId {
    AlkaneId { block: 0, tx: 0 }
}

/// The token class in which royalties are paid.
pub fn payment_token_id() -> (r: AlkaneId)
    ensures
        r == payment_token(),
{
    AlkaneId { block: 0, tx: 0 }
}

/// The royalty owed on a sale at `sale_price`: the rate applied with
/// truncating division, but never less than the minimum.
pub open spec fn royalty_for(sale_price: nat) -> nat {
    let fee = sale_price * (ROYALTY_PERCENTAGE as nat) / (BASIS_POINTS as nat);
    if fee > MIN_ROYALTY_AMOUNT as nat {
        fee
    } else {
        MIN_ROYALTY_AMOUNT as nat
    }
}

/// The royalty owed on a sale at `sale_price`, for every price.
pub fn royalty_amount(sale_price: u128) -> (r: u128)
    ensures
        r as nat == royalty_for(sale_price as nat),
{
    let whole = sale_price / BASIS_POINTS;
    let part = sale_price % BASIS_POINTS;
    proof {
        let s = sale_price as int;
        let q = whole as int;
        let m = part as int;
        let p = ROYALTY_PERCENTAGE as int;
        let d = BASIS_POINTS as int;
        assert(s * p == d * (q * p) + m * p) by (nonlinear_arith)
            requires
                s == d * q + m,
        ;
        vstd::arithmetic::div_mod::lemma_fundamental_div_mod(m * p, d);
        vstd::arithmetic::div_mod::lemma_fundamental_div_mod_converse(
            s * p,
            d,
            q * p + (m * p) / d,
            (m * p) % d,
        );
        assert(q * p + p <= u128::MAX) by (nonlinear_arith)
            requires
                d * q <= s,
                s <= u128::MAX,
                p == 500,
                d == 10000,
                q >= 0,
        ;
    }
    let fee = whole * ROYALTY_PERCENTAGE + part * ROYALTY_PERCENTAGE / BASIS_POINTS;
    if fee > MIN_ROYALTY_AMOUNT {
        fee
    } else {
        MIN_ROYALTY_AMOUNT
    }
}

/// What the host hands one invocation: who called, this instance's own
/// identifier, and the transfers that came in with the call.
#[derive(Clone, Debug)]
pub struct Context {
    pub myself: AlkaneId,
    pub caller: AlkaneId,
    pub incoming_alkanes: Vec<AlkaneTransfer>,
}

/// What an invocation answers: the transfers it sends on, and its payload.
#[derive(Clone, Debug)]
pub struct CallResponse {
    pub alkanes: Vec<AlkaneTransfer>,
    pub data: Vec<u8>,
}

/// A call to another contract: its target and its arguments.
#[derive(Clone, Debug)]
pub struct Cellpack {
    pub target: AlkaneId,
    pub inputs: Vec<u128>,
}

/// Why an invocation was rejected.
#[derive(Clone, Copy, Debug, PartialEq, Eq, Structural)]
pub enum InstanceError {
    /// The call did not bring exactly one unit of this NFT.
    OwnershipViolation,
    /// The payment brought is less than the royalty owed.
    InsufficientPayment { required: u128, provided: u128 },
    /// The instance was initialized before.
    AlreadyInitialized,
}

impl Context {
    /// The units of this NFT that came in with the call.
    pub open spec fn nft_units(&self) -> int {
        amount_of(self.incoming_alkanes@, self.myself)
    }

    /// The amount of the payment token that came in with the call.
    pub open spec fn payment(&self) -> int {
        amount_of(self.incoming_alkanes@, payment_token())
    }
}

impl InstanceError {
    /// The text that explains the rejection to the caller.
    pub open spec fn message_text(self) -> Seq<char> {
        match self {
            InstanceError::OwnershipViolation => "Must own exactly 1 unit of this NFT to transfer"@,
            InstanceError::InsufficientPayment { required, provided } => "Insufficient royalty payment: "@
                + decimal(required as nat) + " sats required, "@ + decimal(provided as nat)
                + " provided"@,
            InstanceError::AlreadyInitialized => "Instance is already initialized"@,
        }
    }

    /// The text that explains the rejection to the caller.
    pub fn message(&self) -> (r: String)
        ensures
            r@ == self.message_text(),
    {
        match self {
            InstanceError::OwnershipViolation => "Must own exactly 1 unit of this NFT to transfer".to_owned(),
            InstanceError::InsufficientPayment { required, provided } => {
                let mut s = "Insufficient royalty payment: ".to_owned();
                append_decimal(&mut s, *required);
                s.append(" sats required, ");
                append_decimal(&mut s, *provided);
                s.append(" provided");
                s
            },
            InstanceError::AlreadyInitialized => "Instance is already initialized".to_owned(),
        }
    }
}

fn copy_transfers(v: &Vec<AlkaneTransfer>) -> (r: Vec<AlkaneTransfer>)
    ensures
        r@ == v@,
{
    let mut out: Vec<AlkaneTransfer> = Vec::new();
    let mut i: usize = 0;
    while i < v.len()
        invariant
            i <= v@.len(),
            out@ == v@.subrange(0, i as int),
        decreases v@.len() - i,
    {
        out.push(v[i]);
        i = i + 1;
        assert(out@ =~= v@.subrange(0, i as int));
    }
    assert(out@ =~= v@);
    out
}

impl CallResponse {
    /// A response that sends on the incoming transfers, with no payload.
    pub fn forward(incoming: &Vec<AlkaneTransfer>) -> (r: CallResponse)
        ensures
            r.alkanes@ == incoming@,
            r.data@ == Seq::<u8>::empty(),
    {
        CallResponse { alkanes: copy_transfers(incoming), data: Vec::new() }
    }
}

/// What this instance keeps between calls: whether it has been initialized,
/// and the raw contents of its two storage slots.
#[derive(Clone, Debug)]
pub struct RoyaltyNFTOrbitalInstance {
    /// The host's one-time initialization guard has been passed.
    pub initialized: bool,
    /// The slot `/collection-alkane-id`: empty, or the 32-byte form of the
    /// parent collection's identifier.
    pub collection_alkane_id: Vec<u8>,
    /// The slot `/index`: empty, or the index as 16 bytes little-endian.
    pub index_value: Vec<u8>,
}

impl Default for RoyaltyNFTOrbitalInstance {
    /// A fresh instance: not initialized, both slots empty.
    fn default() -> (r: RoyaltyNFTOrbitalInstance)
        ensures
            r.wf(),
            !r.initialized,
            r.collection_alkane_id@.len() == 0,
            r.index_value@.len() == 0,
    {
        RoyaltyNFTOrbitalInstance::new()
    }
}

impl RoyaltyNFTOrbitalInstance {
    /// Each slot is empty or holds a value of its fixed width.
    pub open spec fn wf(&self) -> bool {
        &&& (self.collection_alkane_id@.len() == 0 || self.collection_alkane_id@.len() == 32)
        &&& (self.index_value@.len() == 0 || self.index_value@.len() == 16)
    }

    /// The collection reference has been stored.
    pub open spec fn has_collection(&self) -> bool {
        self.collection_alkane_id@.len() == 32
    }

    /// The stored collection reference.
    pub open spec fn stored_collection(&self) -> AlkaneId {
        id_of_bytes(self.collection_alkane_id@)
    }

    /// The stored index; an empty slot reads as 0.
    pub open spec fn stored_index(&self) -> u128 {
        if self.index_value@.len() == 0 {
            0
        } else {
            le_value(self.index_value@) as u128
        }
    }

    /// Checks that each slot is empty or holds a value of its fixed width.
    pub fn is_well_formed(&self) -> (r: bool)
        ensures
            r == self.wf(),
    {
        let c = self.collection_alkane_id.len();
        let i = self.index_value.len();
        (c == 0 || c == 32) && (i == 0 || i == 16)
    }

    /// A fresh instance: not initialized, both slots empty.
    pub fn new() -> (r: RoyaltyNFTOrbitalInstance)
        ensures
            r.wf(),
            !r.initialized,
            r.collection_alkane_id@.len() == 0,
            r.index_value@.len() == 0,
    {
        RoyaltyNFTOrbitalInstance { initialized: false, collection_alkane_id: Vec::new(), index_value: Vec::new() }
    }

    /// The storage key of the collection reference.
    pub fn collection_alkane_id_pointer() -> (r: &'static str)
        ensures
            r@ == "/collection-alkane-id"@,
    {
        "/collection-alkane-id"
    }

    /// The storage key of the index.
    pub fn index_pointer() -> (r: &'static str)
        ensures
            r@ == "/index"@,
    {
        "/index"
    }

    /// Stores the collection reference in its 32-byte form.
    pub fn set_collection_alkane_id(&mut self, id: &AlkaneId)
        ensures
            final(self).collection_alkane_id@ == id_bytes(*id),
            final(self).index_value == old(self).index_value,
            final(self).initialized == old(self).initialized,
            final(self).stored_collection() == *id,
            old(self).wf() ==> final(self).wf(),
            final(self).has_collection(),
    {
        self.collection_alkane_id = id.to_bytes();
        proof {
            crate::alkane::lemma_id_bytes_round_trip(*id);
        }
    }

    /// The stored collection reference. Reading it before it was stored is a
    /// broken invariant of the host, not an error of the call.
    pub fn collection_ref(&self) -> (r: AlkaneId)
        requires
            self.has_collection(),
        ensures
            r == self.stored_collection(),
    {
        AlkaneId::from_bytes(self.collection_alkane_id.as_slice())
    }

    /// Stores the index as 16 bytes little-endian.
    pub fn set_index(&mut self, index: u128)
        ensures
            final(self).index_value@ == u128_le(index),
            final(self).collection_alkane_id == old(self).collection_alkane_id,
            final(self).initialized == old(self).initialized,
            final(self).stored_index() == index,
            old(self).wf() ==> final(self).wf(),
    {
        self.index_value = crate::encoding::u128_to_le_bytes(index);
        proof {
            lemma_u128_le_round_trip(index);
        }
    }

    /// The stored index; an empty slot reads as 0.
    pub fn index(&self) -> (r: u128)
        requires
            self.wf(),
        ensures
            r == self.stored_index(),
    {
        if self.index_value.len() == 0 {
            0
        } else {
            let r = u128_from_le_bytes(self.index_value.as_slice(), 0);
            assert(self.index_value@.subrange(0, 16) =~= self.index_value@);
            r
        }
    }

    /// What one call of `initialize` does: on an instance that was
    /// initialized before, it fails and changes nothing; otherwise it binds
    /// the instance to the calling collection and to `index`, and mints the
    /// one unit of this NFT on top of the incoming transfers.
    pub open spec fn initialize_post(
        pre: RoyaltyNFTOrbitalInstance,
        ctx: Context,
        index: u128,
        r: Result<CallResponse, InstanceError>,
        post: RoyaltyNFTOrbitalInstance,
    ) -> bool {
        if pre.initialized {
            r == Err::<CallResponse, InstanceError>(InstanceError::AlreadyInitialized) && post == pre
        } else {
            &&& r is Ok
            &&& r->Ok_0.alkanes@ == ctx.incoming_alkanes@.push(
                (AlkaneTransfer { id: ctx.myself, value: 1 }),
            )
            &&& r->Ok_0.data@ == Seq::<u8>::empty()
            &&& post.initialized
            &&& post.collection_alkane_id@ == id_bytes(ctx.caller)
            &&& post.index_value@ == u128_le(index)
        }
    }

    /// Binds a fresh instance to its collection (the caller) and to its
    /// index, and mints its one unit to the caller. Fails on an instance
    /// that was initialized before.
    pub fn initialize(&mut self, ctx: &Context, index: u128) -> (r: Result<CallResponse, InstanceError>)
        ensures
            old(self).wf() ==> final(self).wf(),
            r is Ok ==> final(self).wf(),
            Self::initialize_post(*old(self), *ctx, index, r, *final(self)),
    {
        if self.initialized {
            return Err(InstanceError::AlreadyInitialized);
        }
        let mut response = CallResponse::forward(&ctx.incoming_alkanes);
        self.initialized = true;
        self.set_collection_alkane_id(&ctx.caller);
        self.set_index(index);
        proof {
            crate::alkane::lemma_id_bytes_round_trip(ctx.caller);
            lemma_u128_le_round_trip(index);
        }
        response.alkanes.push(AlkaneTransfer { id: ctx.myself, value: 1 });
        Ok(response)
    }

    /// The name of this instance, from its stored index.
    pub fn name(&self) -> (r: String)
        requires
            self.wf(),
        ensures
            r@ == name_text(self.stored_index()),
            is_ascii_chars(r@),
    {
        let mut s = "Alkane RoyaltyNFT #".to_owned();
        append_decimal(&mut s, self.index());
        proof {
            reveal_strlit("Alkane RoyaltyNFT #");
            lemma_decimal_is_ascii(self.stored_index() as nat);
            is_ascii_chars_concat(s@, "Alkane RoyaltyNFT #"@, decimal(self.stored_index() as nat));
        }
        s
    }

    /// The symbol of this instance, from its stored index.
    pub fn symbol(&self) -> (r: String)
        requires
            self.wf(),
        ensures
            r@ == symbol_text(self.stored_index()),
            is_ascii_chars(r@),
    {
        let mut s = "alkane-royalty-nft-".to_owned();
        append_decimal(&mut s, self.index());
        proof {
            reveal_strlit("alkane-royalty-nft-");
            lemma_decimal_is_ascii(self.stored_index() as nat);
            is_ascii_chars_concat(s@, "alkane-royalty-nft-"@, decimal(self.stored_index() as nat));
        }
        s
    }

    /// Answers with the name of this instance.
    pub fn get_name(&self, ctx: &Context) -> (r: CallResponse)
        requires
            self.wf(),
        ensures
            r.alkanes@ == ctx.incoming_alkanes@,
            r.data@ == ascii_bytes(name_text(self.stored_index())),
    {
        let mut response = CallResponse::forward(&ctx.incoming_alkanes);
        let name = self.name();
        response.data = string_to_bytes(&name);
        response
    }

    /// Answers with the symbol of this instance.
    pub fn get_symbol(&self, ctx: &Context) -> (r: CallResponse)
        requires
            self.wf(),
        ensures
            r.alkanes@ == ctx.incoming_alkanes@,
            r.data@ == ascii_bytes(symbol_text(self.stored_index())),
    {
        let mut response = CallResponse::forward(&ctx.incoming_alkanes);
        let symbol = self.symbol();
        response.data = string_to_bytes(&symbol);
        response
    }

    /// Answers with the total supply, which is always one unit.
    pub fn get_total_supply(&self, ctx: &Context) -> (r: CallResponse)
        ensures
            r.alkanes@ == ctx.incoming_alkanes@,
            r.data@ == u128_le(1),
            crate::encoding::le_value(r.data@) == 1,
    {
        let mut response = CallResponse::forward(&ctx.incoming_alkanes);
        response.data = crate::encoding::u128_to_le_bytes(1);
        proof {
            lemma_u128_le_round_trip(1);
        }
        response
    }

    /// Answers with the content type shared by the whole collection.
    pub fn get_content_type(&self, ctx: &Context) -> (r: CallResponse)
        ensures
            r.alkanes@ == ctx.incoming_alkanes@,
            r.data@ == ascii_bytes(content_type_text()),
    {
        let mut response = CallResponse::forward(&ctx.incoming_alkanes);
        let text = "image/svg+xml".to_owned();
        proof {
            reveal_strlit("image/svg+xml");
        }
        response.data = string_to_bytes(&text);
        response
    }

    /// Answers with the royalty rate and the collection reference:
    /// three 16-byte little-endian integers.
    pub fn get_royalty_info(&self, ctx: &Context) -> (r: CallResponse)
        requires
            self.has_collection(),
        ensures
            r.alkanes@ == ctx.incoming_alkanes@,
            r.data@ == u128_le(ROYALTY_PERCENTAGE) + id_bytes(self.stored_collection()),
    {
        let mut response = CallResponse::forward(&ctx.incoming_alkanes);
        let collection = self.collection_ref();
        let mut data: Vec<u8> = Vec::new();
        push_u128_le(&mut data, ROYALTY_PERCENTAGE);
        push_u128_le(&mut data, collection.block);
        push_u128_le(&mut data, collection.tx);
        assert(data@ =~= u128_le(ROYALTY_PERCENTAGE) + id_bytes(self.stored_collection()));
        response.data = data;
        response
    }

    /// Answers with the collection reference as text, `block:tx`.
    pub fn get_collection_identifier(&self, ctx: &Context) -> (r: CallResponse)
        requires
            self.has_collection(),
        ensures
            r.alkanes@ == ctx.incoming_alkanes@,
            r.data@ == ascii_bytes(identifier_text(self.stored_collection())),
    {
        let mut response = CallResponse::forward(&ctx.incoming_alkanes);
        let collection = self.collection_ref();
        let mut text = String::new();
        append_decimal(&mut text, collection.block);
        let ghost first = text@;
        text.append(":");
        let ghost second = text@;
        append_decimal(&mut text, collection.tx);
        proof {
            reveal_strlit(":");
            lemma_decimal_is_ascii(collection.block as nat);
            lemma_decimal_is_ascii(collection.tx as nat);
            assert(first =~= decimal(collection.block as nat));
            is_ascii_chars_concat(second, first, seq![':']);
            is_ascii_chars_concat(text@, second, decimal(collection.tx as nat));
            assert(text@ =~= identifier_text(collection));
        }
        response.data = string_to_bytes(&text);
        response
    }

    /// Answers with the collection reference in its 32-byte form.
    pub fn get_collection_alkane_id(&self, ctx: &Context) -> (r: CallResponse)
        requires
            self.has_collection(),
        ensures
            r.alkanes@ == ctx.incoming_alkanes@,
            r.data@ == id_bytes(self.stored_collection()),
    {
        let mut response = CallResponse::forward(&ctx.incoming_alkanes);
        let collection = self.collection_ref();
        response.data = collection.to_bytes();
        response
    }

    /// The call that asks the collection for this instance's attributes.
    pub fn attributes_call(&self) -> (r: Cellpack)
        requires
            self.wf(),
            self.has_collection(),
        ensures
            r.target == self.stored_collection(),
            r.inputs@ == seq![ATTRIBUTES_OPCODE, self.stored_index()],
    {
        let mut inputs: Vec<u128> = Vec::new();
        inputs.push(ATTRIBUTES_OPCODE);
        inputs.push(self.index());
        assert(inputs@ =~= seq![ATTRIBUTES_OPCODE, self.stored_index()]);
        Cellpack { target: self.collection_ref(), inputs }
    }

    /// The call that asks the collection for this instance's raw content.
    pub fn data_call(&self) -> (r: Cellpack)
        requires
            self.wf(),
            self.has_collection(),
        ensures
            r.target == self.stored_collection(),
            r.inputs@ == seq![DATA_OPCODE, self.stored_index()],
    {
        let mut inputs: Vec<u128> = Vec::new();
        inputs.push(DATA_OPCODE);
        inputs.push(self.index());
        assert(inputs@ =~= seq![DATA_OPCODE, self.stored_index()]);
        Cellpack { target: self.collection_ref(), inputs }
    }

    /// Answers with what the collection replied, unchanged.
    pub fn delegated_response(&self, ctx: &Context, reply: Vec<u8>) -> (r: CallResponse)
        ensures
            r.alkanes@ == ctx.incoming_alkanes@,
            r.data@ == reply@,
    {
        let mut response = CallResponse::forward(&ctx.incoming_alkanes);
        response.data = reply;
        response
    }

    /// Checks that exactly one unit of this NFT came in with the call.
    pub fn verify_nft_ownership(&self, ctx: &Context) -> (r: Result<(), InstanceError>)
        ensures
            r == if ctx.nft_units() == 1 {
                Ok::<(), InstanceError>(())
            } else {
                Err(InstanceError::OwnershipViolation)
            },
    {
        let held = amount_received(&ctx.incoming_alkanes, ctx.myself);
        if held != 1 {
            return Err(InstanceError::OwnershipViolation);
        }
        Ok(())
    }

    /// Checks that the payment token came in with the call to at least
    /// `required_royalty`.
    pub fn verify_royalty_payment(&self, ctx: &Context, required_royalty: u128) -> (r: Result<
        (),
        InstanceError,
    >)
        ensures
            r == if ctx.payment() >= required_royalty {
                Ok::<(), InstanceError>(())
            } else {
                Err(
                    (InstanceError::InsufficientPayment {
                        required: required_royalty,
                        provided: ctx.payment() as u128,
                    }),
                )
            },
    {
        let paid = amount_received(&ctx.incoming_alkanes, payment_token_id());
        if paid < required_royalty {
            return Err(InstanceError::InsufficientPayment { required: required_royalty, provided: paid });
        }
        Ok(())
    }

    /// Hands this NFT on against the royalty for a sale at `sale_price`.
    /// The call must bring exactly one unit of this NFT and at least the
    /// royalty in the payment token; both are kept, and the response carries
    /// the one unit, re-issued to the new holder, and nothing else.
    pub fn transfer_with_royalty(&self, ctx: &Context, sale_price: u128) -> (r: Result<
        CallResponse,
        InstanceError,
    >)
        ensures
            ctx.nft_units() != 1 ==> r == Err::<CallResponse, InstanceError>(
                InstanceError::OwnershipViolation,
            ),
            ctx.nft_units() == 1 && ctx.payment() < royalty_for(sale_price as nat) ==> r == Err::<
                CallResponse,
                InstanceError,
            >(
                (InstanceError::InsufficientPayment {
                    required: royalty_for(sale_price as nat) as u128,
                    provided: ctx.payment() as u128,
                }),
            ),
            ctx.nft_units() == 1 && ctx.payment() >= royalty_for(sale_price as nat) ==> r is Ok
                && r->Ok_0.alkanes@ == seq![(AlkaneTransfer { id: ctx.myself, value: 1 })]
                && r->Ok_0.data@ == Seq::<u8>::empty(),
    {
        let royalty = royalty_amount(sale_price);
        match self.verify_nft_ownership(ctx) {
            Ok(()) => {},
            Err(e) => {
                return Err(e);
            },
        }
        match self.verify_royalty_payment(ctx, royalty) {
            Ok(()) => {},
            Err(e) => {
                return Err(e);
            },
        }
        let mut alkanes: Vec<AlkaneTransfer> = Vec::new();
        alkanes.push(AlkaneTransfer { id: ctx.myself, value: 1 });
        Ok(CallResponse { alkanes, data: Vec::new() })
    }
}

/// Initialization succeeds once. A first call on an instance that was not
/// initialized succeeds and stores its index; a second call then fails with
/// `AlreadyInitialized` and leaves the state, and so the stored index, as the
/// first call left it.
pub proof fn lemma_initialize_once(
    s0: RoyaltyNFTOrbitalInstance,
    ctx1: Context,
    index1: u128,
    r1: Result<CallResponse, InstanceError>,
    s1: RoyaltyNFTOrbitalInstance,
    ctx2: Context,
    index2: u128,
    r2: Result<CallResponse, InstanceError>,
    s2: RoyaltyNFTOrbitalInstance,
)
    requires
        !s0.initialized,
        RoyaltyNFTOrbitalInstance::initialize_post(s0, ctx1, index1, r1, s1),
        RoyaltyNFTOrbitalInstance::initialize_post(s1, ctx2, index2, r2, s2),
    ensures
        r1 is Ok,
        s1.stored_index() == index1,
        s1.stored_collection() == ctx1.caller,
        r2 == Err::<CallResponse, InstanceError>(InstanceError::AlreadyInitialized),
        s2 == s1,
        s2.stored_index() == index1,
{
    lemma_u128_le_round_trip(index1);
    crate::alkane::lemma_id_bytes_round_trip(ctx1.caller);
}

/// The two forms of the collection reference agree. The 32 bytes that
/// `get_collection_alkane_id` answers with are the stored bytes, and
/// decoding them gives back the block and transaction index that the text
/// of `get_collection_identifier` displays.
pub proof fn lemma_collection_forms_agree(inst: RoyaltyNFTOrbitalInstance)
    requires
        inst.has_collection(),
    ensures
        id_bytes(inst.stored_collection()) == inst.collection_alkane_id@,
        id_of_bytes(id_bytes(inst.stored_collection())) == inst.stored_collection(),
        identifier_text(id_of_bytes(id_bytes(inst.stored_collection()))) == identifier_text(
            inst.stored_collection(),
        ),
{
    crate::alkane::lemma_id_of_bytes_round_trip(inst.collection_alkane_id@);
    crate::alkane::lemma_id_bytes_round_trip(inst.stored_collection());
}

} // verus!
