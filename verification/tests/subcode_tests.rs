use qchannel::subcode::{SubcodeBit, SubcodeSymbol};

#[test]
fn subcode_symbol_get_bit_value_returns_correct_values() {
    let subcode_symbol = SubcodeSymbol(0b0000_0000);
    assert_eq!(subcode_symbol.get_bit_value(SubcodeBit::P), 0);
    assert_eq!(subcode_symbol.get_bit_value(SubcodeBit::Q), 0);
    assert_eq!(subcode_symbol.get_bit_value(SubcodeBit::R), 0);
    assert_eq!(subcode_symbol.get_bit_value(SubcodeBit::S), 0);
    assert_eq!(subcode_symbol.get_bit_value(SubcodeBit::T), 0);
    assert_eq!(subcode_symbol.get_bit_value(SubcodeBit::U), 0);
    assert_eq!(subcode_symbol.get_bit_value(SubcodeBit::V), 0);
    assert_eq!(subcode_symbol.get_bit_value(SubcodeBit::W), 0);

    let subcode_symbol = SubcodeSymbol(0b1111_1111);
    assert_eq!(subcode_symbol.get_bit_value(SubcodeBit::P), 1);
    assert_eq!(subcode_symbol.get_bit_value(SubcodeBit::Q), 1);
    assert_eq!(subcode_symbol.get_bit_value(SubcodeBit::R), 1);
    assert_eq!(subcode_symbol.get_bit_value(SubcodeBit::S), 1);
    assert_eq!(subcode_symbol.get_bit_value(SubcodeBit::T), 1);
    assert_eq!(subcode_symbol.get_bit_value(SubcodeBit::U), 1);
    assert_eq!(subcode_symbol.get_bit_value(SubcodeBit::V), 1);
    assert_eq!(subcode_symbol.get_bit_value(SubcodeBit::W), 1);

    let subcode_symbol = SubcodeSymbol(0b1010_1010);
    assert_eq!(subcode_symbol.get_bit_value(SubcodeBit::P), 1);
    assert_eq!(subcode_symbol.get_bit_value(SubcodeBit::Q), 0);
    assert_eq!(subcode_symbol.get_bit_value(SubcodeBit::R), 1);
    assert_eq!(subcode_symbol.get_bit_value(SubcodeBit::S), 0);
    assert_eq!(subcode_symbol.get_bit_value(SubcodeBit::T), 1);
    assert_eq!(subcode_symbol.get_bit_value(SubcodeBit::U), 0);
    assert_eq!(subcode_symbol.get_bit_value(SubcodeBit::V), 1);
    assert_eq!(subcode_symbol.get_bit_value(SubcodeBit::W), 0);

    let subcode_symbol = SubcodeSymbol(0b0101_0101);
    assert_eq!(subcode_symbol.get_bit_value(SubcodeBit::P), 0);
    assert_eq!(subcode_symbol.get_bit_value(SubcodeBit::Q), 1);
    assert_eq!(subcode_symbol.get_bit_value(SubcodeBit::R), 0);
    assert_eq!(subcode_symbol.get_bit_value(SubcodeBit::S), 1);
    assert_eq!(subcode_symbol.get_bit_value(SubcodeBit::T), 0);
    assert_eq!(subcode_symbol.get_bit_value(SubcodeBit::U), 1);
    assert_eq!(subcode_symbol.get_bit_value(SubcodeBit::V), 0);
    assert_eq!(subcode_symbol.get_bit_value(SubcodeBit::W), 1);
}

#[test]
fn subcode_symbol_get_bit_returns_correct_values() {
    let subcode_symbol = SubcodeSymbol(0b0000_0000);
    assert_eq!(subcode_symbol.get_bit(SubcodeBit::P), false);
    assert_eq!(subcode_symbol.get_bit(SubcodeBit::Q), false);
    assert_eq!(subcode_symbol.get_bit(SubcodeBit::R), false);
    assert_eq!(subcode_symbol.get_bit(SubcodeBit::S), false);
    assert_eq!(subcode_symbol.get_bit(SubcodeBit::T), false);
    assert_eq!(subcode_symbol.get_bit(SubcodeBit::U), false);
    assert_eq!(subcode_symbol.get_bit(SubcodeBit::V), false);
    assert_eq!(subcode_symbol.get_bit(SubcodeBit::W), false);

    let subcode_symbol = SubcodeSymbol(0b1111_1111);
    assert_eq!(subcode_symbol.get_bit(SubcodeBit::P), true);
    assert_eq!(subcode_symbol.get_bit(SubcodeBit::Q), true);
    assert_eq!(subcode_symbol.get_bit(SubcodeBit::R), true);
    assert_eq!(subcode_symbol.get_bit(SubcodeBit::S), true);
    assert_eq!(subcode_symbol.get_bit(SubcodeBit::T), true);
    assert_eq!(subcode_symbol.get_bit(SubcodeBit::U), true);
    assert_eq!(subcode_symbol.get_bit(SubcodeBit::V), true);
    assert_eq!(subcode_symbol.get_bit(SubcodeBit::W), true);

    let subcode_symbol = SubcodeSymbol(0b1010_1010);
    assert_eq!(subcode_symbol.get_bit(SubcodeBit::P), true);
    assert_eq!(subcode_symbol.get_bit(SubcodeBit::Q), false);
    assert_eq!(subcode_symbol.get_bit(SubcodeBit::R), true);
    assert_eq!(subcode_symbol.get_bit(SubcodeBit::S), false);
    assert_eq!(subcode_symbol.get_bit(SubcodeBit::T), true);
    assert_eq!(subcode_symbol.get_bit(SubcodeBit::U), false);
    assert_eq!(subcode_symbol.get_bit(SubcodeBit::V), true);
    assert_eq!(subcode_symbol.get_bit(SubcodeBit::W), false);

    let subcode_symbol = SubcodeSymbol(0b0101_0101);
    assert_eq!(subcode_symbol.get_bit(SubcodeBit::P), false);
    assert_eq!(subcode_symbol.get_bit(SubcodeBit::Q), true);
    assert_eq!(subcode_symbol.get_bit(SubcodeBit::R), false);
    assert_eq!(subcode_symbol.get_bit(SubcodeBit::S), true);
    assert_eq!(subcode_symbol.get_bit(SubcodeBit::T), false);
    assert_eq!(subcode_symbol.get_bit(SubcodeBit::U), true);
    assert_eq!(subcode_symbol.get_bit(SubcodeBit::V), false);
    assert_eq!(subcode_symbol.get_bit(SubcodeBit::W), true);
}

#[test]
fn subcode_symbol_zero_debug_writes_correct_value() {
    let s = SubcodeSymbol(0b0000_0000).debug_string();

    assert_eq!(s, "SubcodeSymbol(0b00000000)");
}

#[test]
fn subcode_symbol_all_debug_writes_correct_value() {
    let s = SubcodeSymbol(0b1111_1111).debug_string();

    assert_eq!(s, "SubcodeSymbol(0b11111111 PQRSTUVW)");
}

#[test]
fn subcode_symbol_some_debug_writes_correct_value() {
    let s = SubcodeSymbol(0b1001_0110).debug_string();

    assert_eq!(s, "SubcodeSymbol(0b10010110 PSUV)");
}

#[test]
fn bit_accessors_agree_and_reconstruct_every_byte() {
    for b in 0u16..=255u16 {
        let symbol = SubcodeSymbol(b as u8);
        let planes = [
            SubcodeBit::P,
            SubcodeBit::Q,
            SubcodeBit::R,
            SubcodeBit::S,
            SubcodeBit::T,
            SubcodeBit::U,
            SubcodeBit::V,
            SubcodeBit::W,
        ];
        let mut reassembled: u16 = 0;
        for (k, plane) in planes.into_iter().enumerate() {
            let value = symbol.get_bit_value(plane);
            let as_bool = symbol.get_bit(plane);
            assert_eq!(as_bool, value == 1);
            reassembled += (value as u16) << (7 - k);
        }
        assert_eq!(reassembled, b);
    }
}
