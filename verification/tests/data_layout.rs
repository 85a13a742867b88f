//! Tests for the data-layout descriptor parser.

use hieratika::data_layout::{
    AggregateLayout, DataLayout, Endianness, FloatLayout, FunctionPointerLayout,
    FunctionPointerType, IntegerLayout, Mangling, NativeIntegerWidths,
    NonIntegralPointerAddressSpaces, PointerLayout, VectorLayout,
};
use hieratika::parsing::{
    alloc_address_space, field, global_address_space, pos_int, program_address_space,
    stack_alignment,
};

#[test]
fn can_parse_data_layout() {
    let dl_string = "e-m:e-i8:8:32-i16:16:32-i64:64-i128:128-n32:64-S128";

    // It should parse correctly
    let parsed_layout = DataLayout::new(dl_string);
    assert!(parsed_layout.is_ok());

    // Now we can check that the fields have their proper values.
    let layout = parsed_layout.unwrap();

    // Little endian with ELF mangling
    assert_eq!(layout.endianness, Endianness::Little);
    assert_eq!(layout.mangling, Mangling::ELF);

    // Stack aligned to 128 bits, with all address spaces in zero.
    assert_eq!(layout.stack_alignment, 128);
    assert_eq!(layout.program_address_space, 0);
    assert_eq!(layout.global_address_space, 0);
    assert_eq!(layout.alloc_address_space, 0);

    // Pointers in address space zero are aligned to 64 bits.
    assert_eq!(
        layout.pointer_layouts,
        vec![PointerLayout {
            address_space: 0,
            size: 64,
            abi_alignment: 64,
            preferred_alignment: 64,
            index_size: 64,
        }]
    );

    // Integers are semi-customized, with 8, 16, 64, and 128 using layouts
    // specified in the string
    assert!(layout.integer_layouts.contains(&IntegerLayout {
        size: 1,
        abi_alignment: 8,
        preferred_alignment: 8,
    }));
    assert!(layout.integer_layouts.contains(&IntegerLayout {
        size: 8,
        abi_alignment: 8,
        preferred_alignment: 32,
    }));
    assert!(layout.integer_layouts.contains(&IntegerLayout {
        size: 16,
        abi_alignment: 16,
        preferred_alignment: 32,
    }));
    assert!(layout.integer_layouts.contains(&IntegerLayout {
        size: 32,
        abi_alignment: 32,
        preferred_alignment: 32,
    }));
    assert!(layout.integer_layouts.contains(&IntegerLayout {
        size: 64,
        abi_alignment: 64,
        preferred_alignment: 64,
    }));
    assert!(layout.integer_layouts.contains(&IntegerLayout {
        size: 128,
        abi_alignment: 128,
        preferred_alignment: 128,
    }));

    // For vector layouts we only have the defaults
    assert!(layout.vector_layouts.contains(&VectorLayout {
        size: 64,
        abi_alignment: 64,
        preferred_alignment: 64,
    }));
    assert!(layout.vector_layouts.contains(&VectorLayout {
        size: 128,
        abi_alignment: 128,
        preferred_alignment: 128,
    }));

    // For float layouts we also use the defaults
    assert!(layout.float_layouts.contains(&FloatLayout {
        size: 16,
        abi_alignment: 16,
        preferred_alignment: 16,
    }));
    assert!(layout.float_layouts.contains(&FloatLayout {
        size: 32,
        abi_alignment: 32,
        preferred_alignment: 32,
    }));
    assert!(layout.float_layouts.contains(&FloatLayout {
        size: 64,
        abi_alignment: 64,
        preferred_alignment: 64,
    }));
    assert!(layout.float_layouts.contains(&FloatLayout {
        size: 128,
        abi_alignment: 128,
        preferred_alignment: 128,
    }));

    // For the aggregate layout we have the default
    assert_eq!(
        layout.aggregate_layout,
        AggregateLayout {
            abi_alignment: 0,
            preferred_alignment: 64,
        }
    );

    // For the function pointer layout we also have our default
    assert_eq!(
        layout.function_pointer_layout,
        FunctionPointerLayout {
            ptr_type: FunctionPointerType::Independent,
            abi_alignment: 64,
        }
    );

    // For native integer widths this string specifies 32, 64
    assert_eq!(
        layout.native_integer_widths,
        NativeIntegerWidths {
            widths: vec![32, 64],
        }
    );

    // And no address spaces should be using non-integral pointers
    assert_eq!(
        layout.nointptr_address_spaces,
        NonIntegralPointerAddressSpaces {
            address_spaces: Vec::new(),
        }
    );
}

#[test]
fn can_parse_data_layout_to_default() {
    let dl_string = "";

    // It should parse correctly
    let parsed_layout = DataLayout::new(dl_string);
    assert!(parsed_layout.is_ok());

    // Now we can check that the fields have their proper values.
    let layout = parsed_layout.unwrap();

    // Little endian with ELF mangling
    assert_eq!(layout.endianness, Endianness::Little);
    assert_eq!(layout.mangling, Mangling::ELF);

    // Stack alignment is arbitrary, with all address spaces in zero.
    assert_eq!(layout.stack_alignment, 0);
    assert_eq!(layout.program_address_space, 0);
    assert_eq!(layout.global_address_space, 0);
    assert_eq!(layout.alloc_address_space, 0);

    // Pointers in address space zero are aligned to 64 bits.
    assert_eq!(
        layout.pointer_layouts,
        vec![PointerLayout {
            address_space: 0,
            size: 64,
            abi_alignment: 64,
            preferred_alignment: 64,
            index_size: 64,
        }]
    );

    // All the integer layouts should be default
    assert!(layout.integer_layouts.contains(&IntegerLayout {
        size: 1,
        abi_alignment: 8,
        preferred_alignment: 8,
    }));
    assert!(layout.integer_layouts.contains(&IntegerLayout {
        size: 8,
        abi_alignment: 8,
        preferred_alignment: 8,
    }));
    assert!(layout.integer_layouts.contains(&IntegerLayout {
        size: 16,
        abi_alignment: 16,
        preferred_alignment: 16,
    }));
    assert!(layout.integer_layouts.contains(&IntegerLayout {
        size: 32,
        abi_alignment: 32,
        preferred_alignment: 32,
    }));
    assert!(layout.integer_layouts.contains(&IntegerLayout {
        size: 64,
        abi_alignment: 32,
        preferred_alignment: 64,
    }));

    // For vector layouts we only have the defaults
    assert!(layout.vector_layouts.contains(&VectorLayout {
        size: 64,
        abi_alignment: 64,
        preferred_alignment: 64,
    }));
    assert!(layout.vector_layouts.contains(&VectorLayout {
        size: 128,
        abi_alignment: 128,
        preferred_alignment: 128,
    }));

    // For float layouts we also use the defaults
    assert!(layout.float_layouts.contains(&FloatLayout {
        size: 16,
        abi_alignment: 16,
        preferred_alignment: 16,
    }));
    assert!(layout.float_layouts.contains(&FloatLayout {
        size: 32,
        abi_alignment: 32,
        preferred_alignment: 32,
    }));
    assert!(layout.float_layouts.contains(&FloatLayout {
        size: 64,
        abi_alignment: 64,
        preferred_alignment: 64,
    }));
    assert!(layout.float_layouts.contains(&FloatLayout {
        size: 128,
        abi_alignment: 128,
        preferred_alignment: 128,
    }));

    // For the aggregate layout we have the default
    assert_eq!(
        layout.aggregate_layout,
        AggregateLayout {
            abi_alignment: 0,
            preferred_alignment: 64,
        }
    );

    // For the function pointer layout we also have our default
    assert_eq!(
        layout.function_pointer_layout,
        FunctionPointerLayout {
            ptr_type: FunctionPointerType::Independent,
            abi_alignment: 64,
        }
    );

    // For native integer widths we should have the default
    assert_eq!(
        layout.native_integer_widths,
        NativeIntegerWidths {
            widths: vec![32, 64],
        }
    );

    // And no address spaces should be using non-integral pointers
    assert_eq!(
        layout.nointptr_address_spaces,
        NonIntegralPointerAddressSpaces {
            address_spaces: Vec::new(),
        }
    );
}

#[test]
fn can_parse_endianness_segment() {
    // Failures
    assert!(Endianness::parser("foo").is_none());

    // Successes
    assert_eq!(
        Endianness::parser("e").expect("Little endian spec did not parse"),
        Endianness::Little
    );
    assert_eq!(
        Endianness::parser("E").expect("Big endian spec did not parse"),
        Endianness::Big
    );
}

#[test]
fn can_parse_mangling_segment() {
    // Failures
    assert!(Mangling::parser("m:").is_none());
    assert!(Mangling::parser("m:f").is_none());
    assert!(Mangling::parser("f").is_none());

    // Successes
    assert_eq!(Mangling::parser("m:a"), Some(Mangling::XCOFF));
    assert_eq!(Mangling::parser("m:e"), Some(Mangling::ELF));
    assert_eq!(Mangling::parser("m:l"), Some(Mangling::GOFF));
    assert_eq!(Mangling::parser("m:m"), Some(Mangling::MIPS));
    assert_eq!(Mangling::parser("m:o"), Some(Mangling::MachO));
    assert_eq!(Mangling::parser("m:w"), Some(Mangling::COFF));
    assert_eq!(Mangling::parser("m:x"), Some(Mangling::COFF86));
}

#[test]
fn can_parse_stack_alignment_segment() {
    // Failures
    assert!(stack_alignment("m:").is_none());
    assert!(stack_alignment("S").is_none());
    assert!(stack_alignment("S15").is_none());

    // Successes
    assert_eq!(stack_alignment("S8"), Some(8));
    assert_eq!(stack_alignment("S32"), Some(32));
    assert_eq!(stack_alignment("S64"), Some(64));
    assert_eq!(stack_alignment("S128"), Some(128));
    assert_eq!(stack_alignment("S256"), Some(256));
}

#[test]
fn can_parse_program_address_space() {
    // Failures
    assert!(program_address_space("PA").is_none());
    assert!(program_address_space("P").is_none());

    // Successes
    assert_eq!(program_address_space("P1"), Some(1));
    assert_eq!(program_address_space("P0"), Some(0));
}

#[test]
fn can_parse_global_address_space() {
    // Failures
    assert!(global_address_space("GA").is_none());
    assert!(global_address_space("G").is_none());

    // Successes
    assert_eq!(global_address_space("G1"), Some(1));
    assert_eq!(global_address_space("G0"), Some(0));
}

#[test]
fn can_parse_alloc_address_space() {
    // Failures
    assert!(alloc_address_space("AA").is_none());
    assert!(alloc_address_space("A").is_none());

    // Successes
    assert_eq!(alloc_address_space("A1"), Some(1));
    assert_eq!(alloc_address_space("A0"), Some(0));
}

#[test]
fn can_parse_pointer_spec() {
    // Failures
    assert!(PointerLayout::parser("p[1]:64:128:128:68").is_none());
    assert!(PointerLayout::parser("p[]:64:128:128:32").is_none());

    // Successes
    assert_eq!(
        PointerLayout::parser("p[1]:64:128:128:64"),
        Some(PointerLayout {
            address_space: 1,
            size: 64,
            abi_alignment: 128,
            preferred_alignment: 128,
            index_size: 64,
        })
    );
    assert_eq!(
        PointerLayout::parser("p:64:128:128:64"),
        Some(PointerLayout {
            address_space: 0,
            size: 64,
            abi_alignment: 128,
            preferred_alignment: 128,
            index_size: 64,
        })
    );
    assert_eq!(
        PointerLayout::parser("p:64:128"),
        Some(PointerLayout {
            address_space: 0,
            size: 64,
            abi_alignment: 128,
            preferred_alignment: 128,
            index_size: 64,
        })
    );
}

#[test]
fn can_parse_integer_spec() {
    // Failures
    assert!(IntegerLayout::parser("i").is_none());
    assert!(IntegerLayout::parser("i8:16").is_none());

    // Successes
    assert_eq!(
        IntegerLayout::parser("i8:8"),
        Some(IntegerLayout {
            size: 8,
            abi_alignment: 8,
            preferred_alignment: 8,
        })
    );
    assert_eq!(
        IntegerLayout::parser("i32:64"),
        Some(IntegerLayout {
            size: 32,
            abi_alignment: 64,
            preferred_alignment: 64,
        })
    );
    assert_eq!(
        IntegerLayout::parser("i32:64:128"),
        Some(IntegerLayout {
            size: 32,
            abi_alignment: 64,
            preferred_alignment: 128,
        })
    );
}

#[test]
fn can_parse_vector_spec() {
    // Failures
    assert!(VectorLayout::parser("v").is_none());
    assert!(VectorLayout::parser("v8").is_none());

    // Successes
    assert_eq!(
        VectorLayout::parser("v8:8"),
        Some(VectorLayout {
            size: 8,
            abi_alignment: 8,
            preferred_alignment: 8,
        })
    );
    assert_eq!(
        VectorLayout::parser("v32:64"),
        Some(VectorLayout {
            size: 32,
            abi_alignment: 64,
            preferred_alignment: 64,
        })
    );
    assert_eq!(
        VectorLayout::parser("v32:64:128"),
        Some(VectorLayout {
            size: 32,
            abi_alignment: 64,
            preferred_alignment: 128,
        })
    );
}

#[test]
fn can_parse_float_spec() {
    // Failures
    assert!(FloatLayout::parser("f").is_none());
    assert!(FloatLayout::parser("f8:16").is_none());
    assert!(FloatLayout::parser("f96:128").is_none());

    // Successes
    assert_eq!(
        FloatLayout::parser("f16:16"),
        Some(FloatLayout {
            size: 16,
            abi_alignment: 16,
            preferred_alignment: 16,
        })
    );
    assert_eq!(
        FloatLayout::parser("f32:64"),
        Some(FloatLayout {
            size: 32,
            abi_alignment: 64,
            preferred_alignment: 64,
        })
    );
    assert_eq!(
        FloatLayout::parser("f32:64:128"),
        Some(FloatLayout {
            size: 32,
            abi_alignment: 64,
            preferred_alignment: 128,
        })
    );
}

#[test]
fn can_parse_aggregate_spec() {
    // Failures
    assert!(FloatLayout::parser("a").is_none());

    // Successes
    assert_eq!(
        AggregateLayout::parser("a64"),
        Some(AggregateLayout {
            abi_alignment: 64,
            preferred_alignment: 64,
        })
    );
    assert_eq!(
        AggregateLayout::parser("a64:128"),
        Some(AggregateLayout {
            abi_alignment: 64,
            preferred_alignment: 128,
        })
    );
}

#[test]
fn can_parse_function_pointer_type() {
    // Failures
    assert!(FunctionPointerType::parser("a").is_none());

    // Successes
    assert_eq!(
        FunctionPointerType::parser("i"),
        Some(FunctionPointerType::Independent)
    );
    assert_eq!(
        FunctionPointerType::parser("n"),
        Some(FunctionPointerType::Multiple)
    );
}

#[test]
fn can_parse_function_pointer_spec() {
    // Failures
    assert!(FunctionPointerLayout::parser("Fi").is_none());
    assert!(FunctionPointerLayout::parser("Fb64").is_none());

    // Successes
    assert_eq!(
        FunctionPointerLayout::parser("Fi64"),
        Some(FunctionPointerLayout {
            ptr_type: FunctionPointerType::Independent,
            abi_alignment: 64,
        })
    );
    assert_eq!(
        FunctionPointerLayout::parser("Fi128"),
        Some(FunctionPointerLayout {
            ptr_type: FunctionPointerType::Independent,
            abi_alignment: 128,
        })
    );
    assert_eq!(
        FunctionPointerLayout::parser("Fn32"),
        Some(FunctionPointerLayout {
            ptr_type: FunctionPointerType::Multiple,
            abi_alignment: 32,
        })
    );
}

#[test]
fn can_parse_native_integer_widths_spec() {
    // Failures
    assert!(NativeIntegerWidths::parser("Fi").is_none());
    assert!(NativeIntegerWidths::parser("n").is_none());

    // Successes
    assert_eq!(
        NativeIntegerWidths::parser("n64").map(|w| w.widths),
        Some(vec![64])
    );
    assert_eq!(
        NativeIntegerWidths::parser("n16:32:64").map(|w| w.widths),
        Some(vec![16, 32, 64])
    );
}

#[test]
fn can_parse_nointptr_address_spaces_spec() {
    // Failures
    assert!(NonIntegralPointerAddressSpaces::parser("ni").is_none());
    assert!(NonIntegralPointerAddressSpaces::parser("ni:").is_none());
    assert!(NonIntegralPointerAddressSpaces::parser("ni:0").is_none());

    // Successes
    assert_eq!(
        NonIntegralPointerAddressSpaces::parser("ni:1").map(|n| n.address_spaces),
        Some(vec![1])
    );
    assert_eq!(
        NonIntegralPointerAddressSpaces::parser("ni:1:3:5").map(|n| n.address_spaces),
        Some(vec![1, 3, 5])
    );
}

#[test]
fn can_parse_fields_and_integers() {
    // A field is a colon followed by a decimal integer.
    assert_eq!(field(":64", 0), Some((64, 3)));
    assert_eq!(field(":64:128", 0), Some((64, 3)));
    assert_eq!(field("64", 0), None);
    assert_eq!(field(":", 0), None);

    // A positive integer has no superfluous leading zero and must fit.
    assert_eq!(pos_int("128", 0), Some((128, 3)));
    assert_eq!(pos_int("0", 0), Some((0, 1)));
    assert_eq!(pos_int("007", 0), None);
    assert_eq!(pos_int("x1", 0), None);
}

#[test]
fn layout_lists_are_sorted() {
    // Records arrive out of order; the defaulted lists come back ascending.
    let layout = DataLayout::new("i64:64-i8:8-f32:32-v128:128-p[2]:32:32").unwrap();
    for w in layout.integer_layouts.windows(2) {
        assert!(w[0].size <= w[1].size);
    }
    for w in layout.float_layouts.windows(2) {
        assert!(w[0].size <= w[1].size);
    }
    for w in layout.vector_layouts.windows(2) {
        assert!(w[0].size <= w[1].size);
    }
    for w in layout.pointer_layouts.windows(2) {
        assert!(w[0].address_space <= w[1].address_space);
    }
    assert_eq!(layout.integer_layouts[0].size, 1);
    assert_eq!(layout.pointer_layouts[0].address_space, 0);
}
