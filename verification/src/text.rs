//! Names in fixed-size fields.
use vstd::prelude::*;

verus! {

/// A name as it stands in a 32-byte field: its characters, and zeros behind
/// them.
pub open spec fn name_field(name: Seq<char>) -> Seq<u8> {
    Seq::new(
        32,
        |i: int|
            if i < name.len() {
                name[i] as u8
            } else {
                0
            },
    )
}

/// Puts a name into a 32-byte field.
pub fn fill_name(name: &str) -> (r: [u8; 32])
    ensures
        r@ == name_field(name@),
{
    let mut r = [0u8; 32];
    let n = put_chars(&mut r, 0, name);
    assert(r@ =~= name_field(name@));
    r
}

/// Writes the characters of `name` from byte `at` on, as far as the field goes,
/// and gives the byte behind them.
pub fn put_chars(field: &mut [u8; 32], at: usize, name: &str) -> (end: usize)
    requires
        at <= 32,
    ensures
        end == (if at + name@.len() <= 32 {
            at + name@.len()
        } else {
            32
        }),
        forall|i: int|
            0 <= i < 32 ==> #[trigger] final(field)@[i] == (if at <= i < end {
                name@[i - at] as u8
            } else {
                old(field)@[i]
            }),
{
    let ghost before = field@;
    let len: usize = name.unicode_len();
    let mut i: usize = 0;
    while i < len && at + i < 32
        invariant
            at <= 32,
            i <= len,
            at + i <= 32,
            len == name@.len(),
            before.len() == 32,
            forall|k: int|
                0 <= k < 32 ==> #[trigger] field@[k] == (if at <= k < at + i {
                    name@[k - at] as u8
                } else {
                    before[k]
                }),
        decreases len - i,
    {
        let c = name.get_char(i);
        field[at + i] = c as u8;
        i += 1;
    }
    at + i
}

} // verus!
