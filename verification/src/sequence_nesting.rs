use vstd::prelude::*;

verus! {

/// The error for sequences that contain each other, directly or through
/// other sequences.
pub open spec fn cyclic_message() -> Seq<char> {
    "cyclic Kdenlive sequence references"@
}

/// Marks the sequence `id` (a UUID as a number) as being read, on the way
/// into it. A sequence that is already being read is reached again only
/// through a cycle of nested sequences: that is an error, and nothing is
/// marked.
pub fn enter_sequence(visiting: &mut Vec<u128>, id: u128) -> (entered: Result<(), String>)
    ensures
        entered is Err <==> old(visiting)@.contains(id),
        match entered {
            Ok(()) => final(visiting)@ == old(visiting)@.push(id),
            Err(message) => message@ == cyclic_message() && final(visiting)@ == old(visiting)@,
        },
{
    let mut i: usize = 0;
    while i < visiting.len()
        invariant
            i <= visiting@.len(),
            forall|j: int| 0 <= j < i ==> visiting@[j] != id,
        decreases visiting@.len() - i,
    {
        if visiting[i] == id {
            proof {
                assert(visiting@.contains(id));
            }
            return Err("cyclic Kdenlive sequence references".to_owned());
        }
        i = i + 1;
    }
    visiting.push(id);
    Ok(())
}

/// Unmarks the sequence `id` on the way out of it: its first mark goes.
pub fn leave_sequence(visiting: &mut Vec<u128>, id: u128)
    ensures
        final(visiting)@ == old(visiting)@.remove_value(id),
{
    let mut i: usize = 0;
    while i < visiting.len()
        invariant
            i <= visiting@.len(),
            visiting@ == old(visiting)@,
            forall|j: int| 0 <= j < i ==> visiting@[j] != id,
        decreases visiting@.len() - i,
    {
        if visiting[i] == id {
            proof {
                visiting@.index_of_first_ensures(id);
                assert(visiting@[i as int] == id);
                assert(visiting@.contains(id));
                let first = visiting@.index_of_first(id);
                assert(first == Some(i as int)) by {
                    let k = first.unwrap();
                    if k < i {
                        assert(visiting@[k] != id);
                    }
                }
            }
            visiting.remove(i);
            return;
        }
        i = i + 1;
    }
    proof {
        visiting@.index_of_first_ensures(id);
        assert(!visiting@.contains(id));
    }
}

/// Entering a sequence that is not being read, then leaving it, gives back
/// the marks as they were.
pub proof fn law_enter_then_leave(visiting: Seq<u128>, id: u128)
    requires
        !visiting.contains(id),
    ensures
        visiting.push(id).remove_value(id) == visiting,
{
    let pushed = visiting.push(id);
    pushed.index_of_first_ensures(id);
    assert(pushed[visiting.len() as int] == id);
    let first = pushed.index_of_first(id).unwrap();
    if first < visiting.len() {
        assert(visiting[first] == id);
    }
    assert(pushed.remove(visiting.len() as int) =~= visiting);
}

/// While every sequence is entered only when it is not being read, no
/// sequence is marked twice.
pub proof fn law_marks_stay_distinct(visiting: Seq<u128>, id: u128)
    requires
        forall|i: int, j: int| 0 <= i < j < visiting.len() ==> visiting[i] != visiting[j],
        !visiting.contains(id),
    ensures
        forall|i: int, j: int|
            0 <= i < j < visiting.push(id).len() ==> visiting.push(id)[i] != visiting.push(id)[j],
{
    assert forall|i: int, j: int| 0 <= i < j < visiting.push(id).len() implies visiting.push(id)[i]
        != visiting.push(id)[j] by {
        if j == visiting.len() {
            assert(visiting[i] == visiting.push(id)[i]);
        }
    }
}

} // verus!
