//! Chip-level helpers shared by the spreading-code generators.

use vstd::prelude::*;

verus! {

/// The ±1 form of a 0/1 chip: 0 → +1, anything else → -1.
pub open spec fn bipolar_chip(b: u8) -> i8 {
    if b == 0 {
        1i8
    } else {
        -1i8
    }
}

/// The ±1 form of a 0/1 chip sequence.
pub open spec fn spec_bipolar(bits: Seq<u8>) -> Seq<i8> {
    Seq::new(bits.len(), |i: int| bipolar_chip(bits[i]))
}

/// Every element is +1 or -1.
pub open spec fn is_bipolar(code: Seq<i8>) -> bool {
    forall|i: int| 0 <= i < code.len() ==> #[trigger] code[i] == 1 || code[i] == -1
}

/// BOC(1,1) modulation: each chip becomes the two half-chips `[+c, -c]`.
pub open spec fn spec_boc11(code: Seq<i8>) -> Seq<i8> {
    Seq::new(
        2 * code.len(),
        |j: int|
            if j % 2 == 0 {
                code[j / 2]
            } else {
                (-code[j / 2]) as i8
            },
    )
}

/// A ±1 sequence stays ±1 under BOC(1,1) modulation.
pub proof fn lemma_boc11_bipolar(code: Seq<i8>)
    requires
        is_bipolar(code),
    ensures
        is_bipolar(spec_boc11(code)),
{
    let b = spec_boc11(code);
    assert forall|j: int| 0 <= j < b.len() implies #[trigger] b[j] == 1 || b[j] == -1 by {
        assert(code[j / 2] == 1 || code[j / 2] == -1);
    }
}

/// Map 0/1 chips to ±1 (0 → +1, 1 → -1).
pub fn bipolar_from_bits(bits: &[u8]) -> (code: Vec<i8>)
    ensures
        code@ == spec_bipolar(bits@),
        is_bipolar(code@),
{
    let mut code: Vec<i8> = Vec::with_capacity(bits.len());
    let mut i: usize = 0;
    while i < bits.len()
        invariant
            i <= bits.len(),
            code.len() == i,
            forall|j: int| 0 <= j < i ==> #[trigger] code@[j] == bipolar_chip(bits@[j]),
        decreases bits.len() - i,
    {
        code.push(if bits[i] == 0 { 1 } else { -1 });
        i += 1;
    }
    assert(code@ =~= spec_bipolar(bits@));
    code
}

/// BOC(1,1)-modulate a ±1 code: each chip is split into `[+chip, -chip]`.
pub fn boc11_expand(code: &[i8]) -> (boc: Vec<i8>)
    requires
        is_bipolar(code@),
        code.len() <= usize::MAX / 2,
    ensures
        boc@ == spec_boc11(code@),
        is_bipolar(boc@),
{
    let mut boc: Vec<i8> = Vec::with_capacity(code.len() * 2);
    let mut i: usize = 0;
    while i < code.len()
        invariant
            i <= code.len(),
            code.len() <= usize::MAX / 2,
            is_bipolar(code@),
            boc.len() == 2 * i,
            forall|j: int| 0 <= j < 2 * i ==> #[trigger] boc@[j] == spec_boc11(code@)[j],
        decreases code.len() - i,
    {
        let chip = code[i];
        assert(chip == 1 || chip == -1);
        boc.push(chip);
        boc.push(-chip);
        i += 1;
    }
    assert(boc@ =~= spec_boc11(code@));
    proof {
        lemma_boc11_bipolar(code@);
    }
    boc
}

} // verus!
