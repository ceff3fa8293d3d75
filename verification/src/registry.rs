//! Registers: named groups of slots, and the identifiers of their slots.
use vstd::prelude::*;
use vstd::string::*;
use crate::error::Error;
use crate::text::{
    decimal, has_prefix, is_numeral, lemma_decimal_injective, lemma_decimal_reads_back,
    lemma_numeral_writes_back, numeral_value, push_decimal, read_decimal,
};

verus! {

/// The identifier of slot `index` of the register called `name`: the name, then the
/// index in decimal.
pub open spec fn slot_id(name: Seq<char>, index: nat) -> Seq<char> {
    name + decimal(index)
}

/// A register as the contracts see it: a name and a number of slots.
pub struct RegisterView {
    pub name: Seq<char>,
    pub size: nat,
}

impl RegisterView {
    /// Whether `id` is the identifier of one of this register's slots.
    pub open spec fn declares(self, id: Seq<char>) -> bool {
        exists|i: nat| i < self.size && id == #[trigger] slot_id(self.name, i)
    }
}

/// Whether `id` is the identifier of a slot of one of `groups`.
pub open spec fn declared_in(groups: Seq<RegisterView>, id: Seq<char>) -> bool {
    exists|k: int| 0 <= k < groups.len() && (#[trigger] groups[k]).declares(id)
}

/// An identifier is a slot's own: it is no other slot's of the same register.
pub proof fn lemma_slot_id_injective(name: Seq<char>, i: nat, j: nat)
    requires
        slot_id(name, i) == slot_id(name, j),
    ensures
        i == j,
{
    assert(slot_id(name, i).skip(name.len() as int) =~= decimal(i));
    assert(slot_id(name, j).skip(name.len() as int) =~= decimal(j));
    lemma_decimal_injective(i, j);
}

/// A register declares the identifier of slot `i` exactly when it has that many slots.
pub proof fn lemma_declares_own_slots(reg: RegisterView, i: nat)
    ensures
        reg.declares(slot_id(reg.name, i)) <==> i < reg.size,
{
    if reg.declares(slot_id(reg.name, i)) {
        let j = choose|j: nat| j < reg.size && slot_id(reg.name, i) == #[trigger] slot_id(
            reg.name,
            j,
        );
        lemma_slot_id_injective(reg.name, i, j);
    }
}

/// The identifiers that a register declares are its name followed by a numeral below
/// its size.
pub proof fn lemma_declares_by_parts(reg: RegisterView, id: Seq<char>)
    ensures
        reg.declares(id) <==> {
            let rest = id.skip(reg.name.len() as int);
            &&& reg.name.len() <= id.len()
            &&& id.take(reg.name.len() as int) == reg.name
            &&& is_numeral(rest)
            &&& numeral_value(rest) < reg.size
        },
{
    let m = reg.name.len() as int;
    if reg.declares(id) {
        let i = choose|i: nat| i < reg.size && id == #[trigger] slot_id(reg.name, i);
        assert(id.take(m) =~= reg.name);
        assert(id.skip(m) =~= decimal(i));
        lemma_decimal_reads_back(i);
    }
    if reg.name.len() <= id.len() && id.take(m) == reg.name && is_numeral(id.skip(m))
        && numeral_value(id.skip(m)) < reg.size {
        let v = numeral_value(id.skip(m));
        lemma_numeral_writes_back(id.skip(m));
        assert(id =~= id.take(m) + id.skip(m));
        assert(id == slot_id(reg.name, v));
    }
}

/// The identifier of slot `index` of the register called `name`.
pub fn slot_name(name: &str, index: u64) -> (id: String)
    ensures
        id@ == slot_id(name@, index as nat),
{
    let mut id = String::from_str(name);
    push_decimal(&mut id, index);
    id
}

/// Whether `id` is the identifier of a slot of the register called `name` that has
/// `size` slots.
pub fn names_slot(name: &str, size: u64, id: &str) -> (r: bool)
    ensures
        r == (RegisterView { name: name@, size: size as nat }).declares(id@),
{
    proof {
        lemma_declares_by_parts(RegisterView { name: name@, size: size as nat }, id@);
    }
    if !has_prefix(id, name) {
        return false;
    }
    let m: usize = name.unicode_len();
    match read_decimal(id, m) {
        Some(v) => v < size,
        None => false,
    }
}

/// A group of qubit slots under one name.
#[derive(Debug)]
pub struct QuantumRegister {
    pub name: String,
    pub size: u64,
}

impl View for QuantumRegister {
    type V = RegisterView;

    open spec fn view(&self) -> RegisterView {
        RegisterView { name: self.name@, size: self.size as nat }
    }
}

impl QuantumRegister {
    /// A register of `size` qubit slots called `name`.
    pub fn new(name: String, size: u64) -> (r: Self)
        ensures
            r@ == (RegisterView { name: name@, size: size as nat }),
    {
        QuantumRegister { name, size }
    }

    /// The identifier of the slot `index`, which the register must have.
    pub fn slot(&self, index: u64) -> (r: Result<String, Error>)
        ensures
            match r {
                Ok(id) => index < self.size && id@ == slot_id(self.name@, index as nat),
                Err(e) => index >= self.size && e == Error::InvalidOperand,
            },
    {
        if index < self.size {
            Ok(slot_name(self.name.as_str(), index))
        } else {
            Err(Error::InvalidOperand)
        }
    }

    /// Whether `id` is the identifier of one of the register's slots.
    pub fn declares(&self, id: &str) -> (r: bool)
        ensures
            r == self@.declares(id@),
    {
        names_slot(self.name.as_str(), self.size, id)
    }
}

/// A group of one-bit result slots under one name.
#[derive(Debug)]
pub struct ClassicalRegister {
    pub name: String,
    pub size: u64,
}

impl View for ClassicalRegister {
    type V = RegisterView;

    open spec fn view(&self) -> RegisterView {
        RegisterView { name: self.name@, size: self.size as nat }
    }
}

impl ClassicalRegister {
    /// A register of `size` result slots called `name`.
    pub fn new(name: String, size: u64) -> (r: Self)
        ensures
            r@ == (RegisterView { name: name@, size: size as nat }),
    {
        ClassicalRegister { name, size }
    }

    /// The identifier of the slot `index`, which the register must have.
    pub fn slot(&self, index: u64) -> (r: Result<String, Error>)
        ensures
            match r {
                Ok(id) => index < self.size && id@ == slot_id(self.name@, index as nat),
                Err(e) => index >= self.size && e == Error::InvalidOperand,
            },
    {
        if index < self.size {
            Ok(slot_name(self.name.as_str(), index))
        } else {
            Err(Error::InvalidOperand)
        }
    }

    /// Whether `id` is the identifier of one of the register's slots.
    pub fn declares(&self, id: &str) -> (r: bool)
        ensures
            r == self@.declares(id@),
    {
        names_slot(self.name.as_str(), self.size, id)
    }
}

/// The registers of `groups` as the contracts see them.
pub open spec fn quantum_views(groups: Seq<QuantumRegister>) -> Seq<RegisterView> {
    Seq::new(groups.len(), |k: int| groups[k]@)
}

/// The registers of `groups` as the contracts see them.
pub open spec fn classical_views(groups: Seq<ClassicalRegister>) -> Seq<RegisterView> {
    Seq::new(groups.len(), |k: int| groups[k]@)
}

/// Whether `id` is the identifier of a qubit slot of one of `groups`.
pub fn declares_qubit(groups: &Vec<QuantumRegister>, id: &str) -> (r: bool)
    ensures
        r == declared_in(quantum_views(groups@), id@),
{
    let ghost views = quantum_views(groups@);
    let mut k: usize = 0;
    while k < groups.len()
        invariant
            k <= groups.len(),
            views == quantum_views(groups@),
            forall|j: int| 0 <= j < k ==> !(#[trigger] views[j]).declares(id@),
        decreases groups.len() - k,
    {
        if groups[k].declares(id) {
            assert(views[k as int].declares(id@));
            return true;
        }
        k = k + 1;
    }
    false
}

/// Whether `id` is the identifier of a result slot of one of `groups`.
pub fn declares_result(groups: &Vec<ClassicalRegister>, id: &str) -> (r: bool)
    ensures
        r == declared_in(classical_views(groups@), id@),
{
    let ghost views = classical_views(groups@);
    let mut k: usize = 0;
    while k < groups.len()
        invariant
            k <= groups.len(),
            views == classical_views(groups@),
            forall|j: int| 0 <= j < k ==> !(#[trigger] views[j]).declares(id@),
        decreases groups.len() - k,
    {
        if groups[k].declares(id) {
            assert(views[k as int].declares(id@));
            return true;
        }
        k = k + 1;
    }
    false
}

} // verus!
