use vstd::prelude::*;

verus! {

/// The greeting for `name`: `Hello, ` then the name then `!`.
pub open spec fn hello_spec(name: Seq<u8>) -> Seq<u8> {
    seq![72u8, 101, 108, 108, 111, 44, 32] + name + seq![33u8]
}

/// Builds the greeting for `name`, as the base utilities module prints it.
pub fn hello(name: &Vec<u8>) -> (r: Vec<u8>)
    ensures
        r@ == hello_spec(name@),
{
    let mut r: Vec<u8> = vec![72u8, 101, 108, 108, 111, 44, 32];
    let ghost start = r@;
    let mut i: usize = 0;
    while i < name.len()
        invariant
            i <= name@.len(),
            start == seq![72u8, 101, 108, 108, 111, 44, 32],
            r@ == start + name@.subrange(0, i as int),
        decreases name@.len() - i,
    {
        r.push(name[i]);
        i = i + 1;
        assert(r@ =~= start + name@.subrange(0, i as int));
    }
    r.push(33u8);
    assert(r@ =~= hello_spec(name@));
    r
}

} // verus!
