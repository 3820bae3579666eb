//! The session context: the record that persists between stages, and the
//! validation of the host buffer that holds it.
use vstd::prelude::*;
use vstd::slice::slice_to_vec;
use vstd::string::StringSliceAdditionalSpecFns;

use crate::error::StageError;
use crate::felt::FieldElement;

verus! {

/// Alignment that the context record needs in the host buffer.
pub const CONTEXT_ALIGN: usize = 8;

/// Bytes that the context record occupies in the host buffer: the target
/// and the amount (32 each), the destination and the domain (64 each, with a
/// length byte), and the stage, method, token index and screen count.
pub const CONTEXT_SIZE: usize = 208;

/// A memory region that the host lends for the session context.
#[derive(Clone, Copy, Debug, PartialEq, Eq, Structural)]
pub struct HostBuffer {
    pub address: usize,
    pub length: usize,
}

/// Where the context record stands inside a host buffer.
#[derive(Clone, Copy, Debug, PartialEq, Eq, Structural)]
pub struct ContextWindow {
    pub offset: usize,
    pub size: usize,
}

/// The smallest offset from `address` that is a multiple of `align`.
pub open spec fn align_offset(address: nat, align: nat) -> nat
    recommends
        align > 0,
{
    ((align - address % align) % (align as int)) as nat
}

/// Whether a record of `size` bytes, aligned to `align`, fits in the buffer.
pub open spec fn window_fits(address: nat, length: nat, align: nat, size: nat) -> bool {
    align_offset(address, align) + size <= length
}

/// Places a record of `size` bytes aligned to `align` in the buffer
/// `[address, address + length)`: at the smallest aligned offset, and only
/// where the whole record lies inside the buffer.
pub fn aligned_window(address: usize, length: usize, align: usize, size: usize) -> (r: Result<
    ContextWindow,
    StageError,
>)
    requires
        align > 0,
    ensures
        r is Ok <==> window_fits(address as nat, length as nat, align as nat, size as nat),
        match r {
            Ok(w) => {
                &&& w.offset == align_offset(address as nat, align as nat)
                &&& w.size == size
                &&& w.offset + w.size <= length
                &&& w.offset < align
                &&& (address + w.offset) % (align as int) == 0
            },
            Err(e) => e == StageError::ContextTooSmall,
        },
{
    let rem = address % align;
    let offset: usize = if rem == 0 {
        0
    } else {
        align - rem
    };
    proof {
        if rem == 0 {
            vstd::arithmetic::div_mod::lemma_mod_self_0(align as int);
        } else {
            vstd::arithmetic::div_mod::lemma_small_mod((align - rem) as nat, align as nat);
        }
        assert(offset == align_offset(address as nat, align as nat));
        assert((address + offset) % (align as int) == 0) by {
            vstd::arithmetic::div_mod::lemma_fundamental_div_mod(address as int, align as int);
            vstd::arithmetic::div_mod::lemma_mod_multiples_basic(
                (address as int / align as int) + if rem == 0 { 0int } else { 1int },
                align as int,
            );
            assert(address + offset == align * ((address as int / align as int) + if rem == 0 {
                0int
            } else {
                1int
            })) by (nonlinear_arith)
                requires
                    address == align * (address as int / align as int) + rem,
                    offset == (if rem == 0 { 0int } else { align - rem }),
            ;
            vstd::arithmetic::mul::lemma_mul_is_commutative(
                align as int,
                (address as int / align as int) + if rem == 0 { 0int } else { 1int },
            );
        }
    }
    if offset > length || length - offset < size {
        return Err(StageError::ContextTooSmall);
    }
    Ok(ContextWindow { offset, size })
}

/// Locates the session context in a host buffer. This is done again on
/// every stage, since the host may move or resize the buffer in between.
pub fn locate_context(buffer: HostBuffer) -> (r: Result<ContextWindow, StageError>)
    ensures
        r is Ok <==> context_fits(buffer),
        match r {
            Ok(w) => {
                &&& w.offset == align_offset(buffer.address as nat, CONTEXT_ALIGN as nat)
                &&& w.size == CONTEXT_SIZE
                &&& w.offset + w.size <= buffer.length
                &&& (buffer.address + w.offset) % (CONTEXT_ALIGN as int) == 0
            },
            Err(e) => e == StageError::ContextTooSmall,
        },
{
    aligned_window(buffer.address, buffer.length, CONTEXT_ALIGN, CONTEXT_SIZE)
}

/// Whether the session context fits in the host buffer.
pub open spec fn context_fits(buffer: HostBuffer) -> bool {
    window_fits(
        buffer.address as nat,
        buffer.length as nat,
        CONTEXT_ALIGN as nat,
        CONTEXT_SIZE as nat,
    )
}

/// The entrypoints whose calls can be shown for confirmation.
#[derive(Clone, Copy, Debug, PartialEq, Eq, Structural)]
pub enum Method {
    Transfer,
    Approve,
    DomainToAddress,
}

impl Method {
    /// The entrypoint's name.
    pub open spec fn name_spec(self) -> Seq<u8> {
        match self {
            Method::Transfer => "transfer".spec_bytes(),
            Method::Approve => "approve".spec_bytes(),
            Method::DomainToAddress => "domain_to_address".spec_bytes(),
        }
    }

    /// Whether the entrypoint moves tokens (and so has a token to show).
    pub open spec fn moves_tokens(self) -> bool {
        self is Transfer || self is Approve
    }

    /// The entrypoint's name.
    pub fn name(&self) -> (r: Vec<u8>)
        ensures
            r@ == self.name_spec(),
    {
        match self {
            Method::Transfer => slice_to_vec("transfer".as_bytes()),
            Method::Approve => slice_to_vec("approve".as_bytes()),
            Method::DomainToAddress => slice_to_vec("domain_to_address".as_bytes()),
        }
    }
}

/// Where a session stands.
#[derive(Clone, Copy, Debug, PartialEq, Eq, Structural)]
pub enum Stage {
    /// No call has been accepted yet.
    Idle,
    /// Init accepted a call.
    Initialized,
    /// At least one Feed succeeded.
    Fed,
    /// Finalize succeeded; the screens can be asked for.
    Finalized,
    /// Finalize failed; the session is over.
    Closed,
}

/// What the session keeps between stages.
#[derive(Debug)]
pub struct SessionContext {
    pub stage: Stage,
    pub method: Option<Method>,
    pub target: [u8; 32],
    pub destination: Vec<u8>,
    pub amount: FieldElement,
    pub token: Option<usize>,
    pub domain: Vec<u8>,
    pub num_screens: usize,
}

/// The session context as values.
pub struct SessionView {
    pub stage: Stage,
    pub method: Option<Method>,
    pub target: Seq<u8>,
    pub destination: Seq<u8>,
    pub amount: nat,
    pub token: Option<usize>,
    pub domain: Seq<u8>,
    pub num_screens: usize,
}

impl View for SessionContext {
    type V = SessionView;

    open spec fn view(&self) -> SessionView {
        SessionView {
            stage: self.stage,
            method: self.method,
            target: self.target@,
            destination: self.destination@,
            amount: self.amount.val(),
            token: self.token,
            domain: self.domain@,
            num_screens: self.num_screens,
        }
    }
}

/// A fresh session: nothing accepted, every field unset.
pub open spec fn idle_view() -> SessionView {
    SessionView {
        stage: Stage::Idle,
        method: None,
        target: Seq::new(32, |i: int| 0u8),
        destination: Seq::empty(),
        amount: 0,
        token: None,
        domain: Seq::empty(),
        num_screens: 0,
    }
}

impl SessionContext {
    /// A fresh session context.
    pub fn new() -> (r: SessionContext)
        ensures
            r@ == idle_view(),
    {
        let r = SessionContext {
            stage: Stage::Idle,
            method: None,
            target: [0u8; 32],
            destination: Vec::new(),
            amount: FieldElement::zero(),
            token: None,
            domain: Vec::new(),
            num_screens: 0,
        };
        assert(r.target@ =~= Seq::new(32, |i: int| 0u8));
        r
    }
}

/// The session after a failed Finalize: closed, nothing else changed.
pub open spec fn closed_view(ctx: SessionView) -> SessionView {
    SessionView { stage: Stage::Closed, ..ctx }
}

} // verus!
