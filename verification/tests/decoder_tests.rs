use aml::dataobj::{
    parse_arg_obj, parse_data_obj, parse_data_ref_obj, parse_local_obj, ArgObj, ComputationalData,
    DataObj, DataRefObj, LocalObj,
};
use aml::namedobj::{parse_named_obj, NamedObj, RegionSpace};
use aml::namestring::{parse_name_seg, parse_name_string, parse_super_name, SuperName};
use aml::pkglength::parse_pkg_length;
use aml::termlist::{parse_term_arg, parse_term_list, parse_term_obj, TermArg, TermObj};
use aml::type1opcode::{parse_type1_opcode, Type1OpCode};
use aml::type2opcode::{parse_type2_opcode, Type2OpCode};
use aml::AmlError;

const DEPTH: u32 = 32;

#[test]
fn literal_widths_and_values() {
    assert_eq!(
        parse_data_obj(&[0x00]),
        Ok((DataObj::ComputationalData(ComputationalData::Zero), 1))
    );
    assert_eq!(
        parse_data_obj(&[0x01, 0x55]),
        Ok((DataObj::ComputationalData(ComputationalData::One), 1))
    );
    assert_eq!(
        parse_data_obj(&[0xFF]),
        Ok((DataObj::ComputationalData(ComputationalData::Ones), 1))
    );
    assert_eq!(
        parse_data_obj(&[0x0A, 0x7E]),
        Ok((DataObj::ComputationalData(ComputationalData::Byte(0x7E)), 2))
    );
    assert_eq!(
        parse_data_obj(&[0x0B, 0x34, 0x12]),
        Ok((DataObj::ComputationalData(ComputationalData::Word(0x1234)), 3))
    );
    assert_eq!(
        parse_data_obj(&[0x0C, 0x78, 0x56, 0x34, 0x12]),
        Ok((DataObj::ComputationalData(ComputationalData::DWord(0x12345678)), 5))
    );
    assert_eq!(
        parse_data_obj(&[0x0E, 0xEF, 0xCD, 0xAB, 0x89, 0x67, 0x45, 0x23, 0x01]),
        Ok((DataObj::ComputationalData(ComputationalData::QWord(0x0123456789ABCDEF)), 9))
    );
}

#[test]
fn literal_bad_opcode_and_truncation() {
    assert_eq!(parse_data_obj(&[0x02]), Err(AmlError::AmlParseError));
    assert_eq!(parse_data_obj(&[]), Err(AmlError::AmlParseError));
    assert_eq!(parse_data_obj(&[0x0B, 0x34]), Err(AmlError::AmlParseError));
    assert_eq!(parse_data_obj(&[0x0E, 1, 2, 3]), Err(AmlError::AmlParseError));
    assert_eq!(
        parse_data_ref_obj(&[0x0A, 0x09]),
        Ok((DataRefObj::DataObj(DataObj::ComputationalData(ComputationalData::Byte(9))), 2))
    );
}

#[test]
fn arg_and_local_opcode_ranges() {
    assert_eq!(parse_arg_obj(&[0x68]), Ok((ArgObj(0), 1)));
    assert_eq!(parse_arg_obj(&[0x6E]), Ok((ArgObj(6), 1)));
    assert_eq!(parse_arg_obj(&[0x6F]), Err(AmlError::AmlParseError));
    assert_eq!(parse_local_obj(&[0x60]), Ok((LocalObj(0), 1)));
    assert_eq!(parse_local_obj(&[0x67]), Ok((LocalObj(7), 1)));
    assert_eq!(parse_local_obj(&[0x68]), Err(AmlError::AmlParseError));
}

#[test]
fn single_name_seg_round_trips() {
    let r = parse_name_string(b"_SB_").unwrap();
    assert_eq!(r.0, "_SB_".to_string());
    assert_eq!(r.1, 4);
    assert_eq!(parse_name_seg(b"PCI0extra").unwrap(), b"PCI0".to_vec());
    assert_eq!(parse_name_seg(b"0BAD"), Err(AmlError::AmlParseError));
}

#[test]
fn dual_name_path() {
    let mut data = vec![0x2E];
    data.extend_from_slice(b"_SB_PCI0");
    let r = parse_name_string(&data).unwrap();
    assert_eq!(r.0, "_SB_PCI0".to_string());
    assert_eq!(r.1, 9);
}

#[test]
fn multi_name_path_three_segments_and_zero_count() {
    let mut data = vec![0x2F, 0x03];
    data.extend_from_slice(b"_SB_PCI0LNKA");
    let r = parse_name_string(&data).unwrap();
    assert_eq!(r.0, "_SB_PCI0LNKA".to_string());
    assert_eq!(r.1, 14);
    assert_eq!(parse_name_string(&[0x2F, 0x00, 0x41]), Err(AmlError::AmlParseError));
}

#[test]
fn name_prefixes_and_null_name() {
    let mut data = vec![0x5C];
    data.extend_from_slice(b"ABCD");
    let r = parse_name_string(&data).unwrap();
    assert_eq!(r.0, "\\ABCD".to_string());
    assert_eq!(r.1, 5);
    let mut data2 = vec![0x5E, 0x5E];
    data2.extend_from_slice(b"XY12");
    let r2 = parse_name_string(&data2).unwrap();
    assert_eq!(r2.0, "^^XY12".to_string());
    assert_eq!(r2.1, 6);
    let r3 = parse_name_string(&[0x00, 0xAA]).unwrap();
    assert_eq!(r3.0, String::new());
    assert_eq!(r3.1, 1);
}

#[test]
fn super_name_alternatives() {
    match parse_super_name(b"FOO_").unwrap() {
        (SuperName::NameString(s), 4) => assert_eq!(s, "FOO_".to_string()),
        other => panic!("unexpected: {:?}", other),
    }
    assert_eq!(parse_super_name(&[0x68]), Ok((SuperName::ArgObj(ArgObj(0)), 1)));
    assert_eq!(parse_super_name(&[0x63]), Ok((SuperName::LocalObj(LocalObj(3)), 1)));
    assert_eq!(parse_super_name(&[0x30]), Err(AmlError::AmlParseError));
}

#[test]
fn pkg_length_encodings() {
    assert_eq!(parse_pkg_length(&[0x3F]), Ok((0x3F, 1)));
    assert_eq!(parse_pkg_length(&[0x48, 0x0A]), Ok((8 + 0x0A * 0x10, 2)));
    assert_eq!(parse_pkg_length(&[0x84, 0x02, 0x01]), Ok((4 + 2 * 0x10 + 0x1000, 3)));
    assert_eq!(
        parse_pkg_length(&[0xC1, 0x01, 0x00, 0x02]),
        Ok((1 + 0x10 + 2 * 0x10_0000, 4))
    );
    assert_eq!(parse_pkg_length(&[0x48]), Err(AmlError::AmlParseError));
    assert_eq!(parse_pkg_length(&[]), Err(AmlError::AmlParseError));
}

#[test]
fn if_without_else_consumes_nothing_extra() {
    // If, extent 2 (the length byte plus a Zero predicate), empty body.
    let r = parse_type1_opcode(&[0xA0, 0x02, 0x00], DEPTH).unwrap();
    match r {
        (Type1OpCode::DefIfElse { predicate, if_block, else_block }, 3) => {
            assert_eq!(predicate, TermArg::DataObj(DataObj::ComputationalData(ComputationalData::Zero)));
            assert!(if_block.is_empty());
            assert!(else_block.is_empty());
        },
        other => panic!("unexpected: {:?}", other),
    }
}

#[test]
fn if_with_else_block() {
    // Same If, then an Else with an empty extent-1 body.
    let r = parse_type1_opcode(&[0xA0, 0x02, 0x00, 0xA1, 0x01], DEPTH).unwrap();
    match r {
        (Type1OpCode::DefIfElse { else_block, .. }, 5) => assert!(else_block.is_empty()),
        other => panic!("unexpected: {:?}", other),
    }
    // A body after the Else extent byte.
    let r2 = parse_type1_opcode(&[0xA0, 0x02, 0x00, 0xA1, 0x02, 0x01], DEPTH).unwrap();
    match r2 {
        (Type1OpCode::DefIfElse { else_block, .. }, 6) => assert_eq!(
            else_block,
            vec![TermObj::DataObj(DataObj::ComputationalData(ComputationalData::One))]
        ),
        other => panic!("unexpected: {:?}", other),
    }
}

#[test]
fn while_statement() {
    let r = parse_type1_opcode(&[0xA2, 0x03, 0x01, 0xFF], DEPTH).unwrap();
    match r {
        (Type1OpCode::DefWhile { predicate, block }, 4) => {
            assert_eq!(predicate, TermArg::DataObj(DataObj::ComputationalData(ComputationalData::One)));
            assert_eq!(block, vec![TermObj::DataObj(DataObj::ComputationalData(ComputationalData::Ones))]);
        },
        other => panic!("unexpected: {:?}", other),
    }
    assert_eq!(parse_type1_opcode(&[0xA3], DEPTH), Err(AmlError::AmlParseError));
}

#[test]
fn buffer_with_byte_list() {
    let r = parse_type2_opcode(&[0x11, 0x05, 0x0A, 0x03, 0xAA, 0xBB], DEPTH).unwrap();
    match r {
        (Type2OpCode::DefBuffer { buffer_size, byte_list }, 6) => {
            assert_eq!(buffer_size, TermArg::DataObj(DataObj::ComputationalData(ComputationalData::Byte(3))));
            assert_eq!(byte_list, vec![0xAA, 0xBB]);
        },
        other => panic!("unexpected: {:?}", other),
    }
}

#[test]
fn expression_operators() {
    match parse_type2_opcode(&[0x83, 0x00], DEPTH).unwrap() {
        (Type2OpCode::DefDerefOf(t), 2) => {
            assert_eq!(t, TermArg::DataObj(DataObj::ComputationalData(ComputationalData::Zero)))
        },
        other => panic!("unexpected: {:?}", other),
    }
    match parse_type2_opcode(&[0x75, 0x60], DEPTH).unwrap() {
        (Type2OpCode::DefIncrement(SuperName::LocalObj(LocalObj(0))), 2) => {},
        other => panic!("unexpected: {:?}", other),
    }
    match parse_type2_opcode(&[0x88, 0x00, 0x01, 0x00], DEPTH).unwrap() {
        (Type2OpCode::DefIndex { obj, idx, target: SuperName::NameString(t) }, 4) => {
            assert_eq!(obj, TermArg::DataObj(DataObj::ComputationalData(ComputationalData::Zero)));
            assert_eq!(idx, TermArg::DataObj(DataObj::ComputationalData(ComputationalData::One)));
            assert_eq!(t, String::new());
        },
        other => panic!("unexpected: {:?}", other),
    }
    match parse_type2_opcode(&[0x93, 0x00, 0x01], DEPTH).unwrap() {
        (Type2OpCode::DefLEqual { .. }, 3) => {},
        other => panic!("unexpected: {:?}", other),
    }
    match parse_type2_opcode(&[0x95, 0x00, 0x01], DEPTH).unwrap() {
        (Type2OpCode::DefLLess { .. }, 3) => {},
        other => panic!("unexpected: {:?}", other),
    }
    match parse_type2_opcode(&[0x87, 0x61], DEPTH).unwrap() {
        (Type2OpCode::DefSizeOf(SuperName::LocalObj(LocalObj(1))), 2) => {},
        other => panic!("unexpected: {:?}", other),
    }
    match parse_type2_opcode(&[0x70, 0x01, 0x60], DEPTH).unwrap() {
        (Type2OpCode::DefStore { operand, target: SuperName::LocalObj(LocalObj(0)) }, 3) => {
            assert_eq!(operand, TermArg::DataObj(DataObj::ComputationalData(ComputationalData::One)));
        },
        other => panic!("unexpected: {:?}", other),
    }
    match parse_type2_opcode(&[0x74, 0x0A, 0x05, 0x01, 0x00], DEPTH).unwrap() {
        (Type2OpCode::DefSubtract { .. }, 5) => {},
        other => panic!("unexpected: {:?}", other),
    }
    match parse_type2_opcode(&[0x96, 0x00, 0x00], DEPTH).unwrap() {
        (Type2OpCode::DefToBuffer { .. }, 3) => {},
        other => panic!("unexpected: {:?}", other),
    }
    match parse_type2_opcode(&[0x98, 0x00, 0x00], DEPTH).unwrap() {
        (Type2OpCode::DefToHexString { .. }, 3) => {},
        other => panic!("unexpected: {:?}", other),
    }
}

#[test]
fn method_invocation_fallback() {
    match parse_type2_opcode(b"MTH0", DEPTH).unwrap() {
        (Type2OpCode::MethodInvocation(m), 4) => assert_eq!(m.name, "MTH0".to_string()),
        other => panic!("unexpected: {:?}", other),
    }
    assert_eq!(parse_type2_opcode(&[0x2A], DEPTH), Err(AmlError::AmlParseError));
}

#[test]
fn op_region_space_byte_ranges() {
    // Prefix, name OPR1, space byte, offset Byte(0x10), length Byte(8).
    let mut data = vec![0x5B, 0x80];
    data.extend_from_slice(b"OPR1");
    data.extend_from_slice(&[0x00, 0x0A, 0x10, 0x0A, 0x08]);
    match parse_named_obj(&data, DEPTH).unwrap() {
        (NamedObj::DefOpRegion { name, region, offset, len }, 11) => {
            assert_eq!(name, "OPR1".to_string());
            assert_eq!(region, RegionSpace::SystemMemory);
            assert_eq!(offset, TermArg::DataObj(DataObj::ComputationalData(ComputationalData::Byte(0x10))));
            assert_eq!(len, TermArg::DataObj(DataObj::ComputationalData(ComputationalData::Byte(8))));
        },
        other => panic!("unexpected: {:?}", other),
    }
    let mut bad = data.clone();
    bad[6] = 0x0A;
    assert_eq!(parse_named_obj(&bad, DEPTH), Err(AmlError::AmlParseError));
    bad[6] = 0x7F;
    assert_eq!(parse_named_obj(&bad, DEPTH), Err(AmlError::AmlParseError));
    bad[6] = 0x80;
    match parse_named_obj(&bad, DEPTH).unwrap() {
        (NamedObj::DefOpRegion { region, .. }, 11) => {
            assert_eq!(region, RegionSpace::UserDefined(0x80))
        },
        other => panic!("unexpected: {:?}", other),
    }
    assert_eq!(parse_named_obj(&[0x5B, 0x81], DEPTH), Err(AmlError::AmlParseError));
}

#[test]
fn term_list_fills_input_exactly() {
    let objs = parse_term_list(&[0x00, 0x01], DEPTH).unwrap();
    assert_eq!(
        objs,
        vec![
            TermObj::DataObj(DataObj::ComputationalData(ComputationalData::Zero)),
            TermObj::DataObj(DataObj::ComputationalData(ComputationalData::One)),
        ]
    );
    assert!(parse_term_list(&[], DEPTH).unwrap().is_empty());
    assert_eq!(parse_term_list(&[0x02], DEPTH), Err(AmlError::AmlParseError));
}

#[test]
fn round_trip_resumes_at_next_sibling() {
    // Two sibling constructs: a Word literal and a While statement.
    let first = [0x0B, 0x34, 0x12];
    let second = [0xA2, 0x02, 0x01];
    let mut joined = first.to_vec();
    joined.extend_from_slice(&second);
    let (obj1, n1) = parse_term_obj(&joined, DEPTH).unwrap();
    assert_eq!(parse_term_obj(&first, DEPTH).unwrap(), (obj1, n1));
    assert_eq!(n1, first.len());
    let alone = parse_term_obj(&second, DEPTH).unwrap();
    let as_suffix = parse_term_obj(&joined[n1..], DEPTH).unwrap();
    assert_eq!(alone, as_suffix);
    let objs = parse_term_list(&joined, DEPTH).unwrap();
    assert_eq!(objs.len(), 2);
}

#[test]
fn depth_bound_is_enforced() {
    assert_eq!(parse_term_arg(&[0x83, 0x00], 1), Err(AmlError::AmlDepthExceeded));
    let (t, n) = parse_term_arg(&[0x83, 0x00], 3).unwrap();
    assert_eq!(n, 2);
    match t {
        TermArg::Type2OpCode(b) => match *b {
            Type2OpCode::DefDerefOf(_) => {},
            other => panic!("unexpected: {:?}", other),
        },
        other => panic!("unexpected: {:?}", other),
    }
    assert_eq!(parse_term_list(&[0x00], 0), Err(AmlError::AmlDepthExceeded));
}
