//! The register pool: which registers are in use, given those that are free.

use crate::compiler::model::{State, TokenView};
use vstd::prelude::*;

verus! {

/// The pool `registers` accounts for the registers 0 to 15 with `live` as
/// the registers in use: every one of them is either free or in use, and
/// none is free twice.
pub open spec fn accounts(registers: Seq<u8>, live: Set<u8>) -> bool {
    &&& registers.no_duplicates()
    &&& forall|r: u8| #[trigger] registers.contains(r) ==> r < 16 && !live.contains(r)
    &&& forall|r: u8| #[trigger] live.contains(r) ==> r < 16
    &&& forall|r: u8| r < 16 ==> registers.contains(r) || live.contains(r)
}

/// At the start no register is in use.
pub proof fn lemma_pool_start(tokens: Seq<TokenView>)
    ensures
        accounts(State::start(tokens).registers, Set::empty()),
{
    let registers = State::start(tokens).registers;
    assert forall|r: u8| r < 16 implies registers.contains(r) by {
        assert(registers[r as int] == r);
    }
}

/// A register that is handed out was not in use; the pool is exhausted only
/// when all sixteen registers are in use.
pub proof fn lemma_pool_use(state: State, live: Set<u8>)
    requires
        accounts(state.registers, live),
    ensures
        match state.use_register() {
            Ok((next, register)) => register < 16 && !live.contains(register) && accounts(
                next.registers,
                live.insert(register),
            ),
            Err(_) => forall|r: u8| r < 16 ==> live.contains(r),
        },
{
    let registers = state.registers;
    if registers.len() > 0 {
        let register = registers[0];
        let rest = registers.remove(0);
        assert(registers.contains(register));
        assert forall|r: u8| #[trigger] rest.contains(r) implies registers.contains(r) && r
            != register by {
            let i = choose|i: int| 0 <= i < rest.len() && rest[i] == r;
            assert(registers[i + 1] == r);
        }
        assert forall|r: u8| r < 16 implies rest.contains(r) || live.insert(register).contains(
            r,
        ) by {
            if r != register && !live.contains(r) {
                let i = choose|i: int| 0 <= i < registers.len() && registers[i] == r;
                assert(rest[i - 1] == r);
            }
        }
        assert(rest.no_duplicates()) by {
            assert forall|i: int, j: int| 0 <= i < rest.len() && 0 <= j < rest.len() && i
                != j implies rest[i] != rest[j] by {
                assert(rest[i] == registers[i + 1] && rest[j] == registers[j + 1]);
            }
        }
    } else {
        assert forall|r: u8| r < 16 implies live.contains(r) by {
            assert(!registers.contains(r));
        }
    }
}

/// A register in use that is handed back is free, and no other changes.
pub proof fn lemma_pool_free(state: State, live: Set<u8>, register: u8)
    requires
        accounts(state.registers, live),
        live.contains(register),
    ensures
        accounts(state.free_register(register).registers, live.remove(register)),
{
    let registers = state.registers;
    let freed = registers.push(register);
    assert(freed[registers.len() as int] == register);
    assert forall|r: u8| #[trigger] freed.contains(r) implies r < 16 && !live.remove(
        register,
    ).contains(r) by {
        let i = choose|i: int| 0 <= i < freed.len() && freed[i] == r;
        if i < registers.len() {
            assert(registers[i] == r);
            assert(registers.contains(r));
        }
    }
    assert forall|r: u8| r < 16 implies freed.contains(r) || live.remove(register).contains(
        r,
    ) by {
        if registers.contains(r) {
            let i = choose|i: int| 0 <= i < registers.len() && registers[i] == r;
            assert(freed[i] == r);
        }
    }
    assert(freed.no_duplicates()) by {
        assert forall|i: int, j: int| 0 <= i < freed.len() && 0 <= j < freed.len() && i
            != j implies freed[i] != freed[j] by {
            if i < registers.len() {
                assert(registers.contains(freed[i]));
            }
            if j < registers.len() {
                assert(registers.contains(freed[j]));
            }
        }
    }
}

/// When no register is in use, the pool holds what it held at the start:
/// each of the sixteen registers, once.
pub proof fn lemma_pool_all_free(registers: Seq<u8>)
    requires
        accounts(registers, Set::empty()),
    ensures
        registers.len() == 16,
        registers.no_duplicates(),
        forall|r: u8| registers.contains(r) <==> r < 16,
        registers.to_multiset() == Seq::new(16, |i: int| i as u8).to_multiset(),
{
    let first = Seq::new(16, |i: int| i as u8);
    assert(first.no_duplicates());
    assert forall|r: u8| first.contains(r) <==> r < 16 by {
        if r < 16 {
            assert(first[r as int] == r);
        }
    }
    assert(registers.to_set() =~= first.to_set());
    registers.unique_seq_to_set();
    first.unique_seq_to_set();
    registers.lemma_multiset_has_no_duplicates();
    first.lemma_multiset_has_no_duplicates();
    registers.to_multiset_ensures();
    first.to_multiset_ensures();
    assert forall|r: u8| registers.contains(r) <==> r < 16 by {
        assert(registers.contains(r) <==> registers.to_set().contains(r));
        assert(first.contains(r) <==> first.to_set().contains(r));
    }
    assert forall|r: u8| registers.to_multiset().count(r) == first.to_multiset().count(r) by {
        assert(registers.contains(r) <==> first.contains(r));
    }
    assert(registers.to_multiset() =~= first.to_multiset());
}

} // verus!
