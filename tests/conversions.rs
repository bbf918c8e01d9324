use chmod_calculator::{
    convert, octal_string_to_rwx_string, parse_octal_string, rwx_string_to_octal_string,
    rwx_string_to_table, ModeError,
};

const TABLE_137: &str = "        Owner  Group Other\n\
Read                 x\n\
Write          x     x\n\
Execute x      x     x\n";

const TABLE_451: &str = "        Owner  Group Other\n\
Read    x      x      \n\
Write                 \n\
Execute        x     x\n";

#[test]
fn parse_octal_string_parses_numbers() {
    assert_eq!("765", parse_octal_string("765".to_string()).unwrap());
    assert_eq!("765", parse_octal_string("0765".to_string()).unwrap());

    // Failure conditions
    assert_eq!(Err("Not a number"), parse_octal_string("".to_string()));
    assert_eq!(Err("Not a number"), parse_octal_string("asfdasdds".to_string()));
    assert_eq!(Err("Not a number"), parse_octal_string("--x-wxrwx".to_string()));
    assert_eq!(Err("Invalid value"), parse_octal_string("-5".to_string()));
    assert_eq!(Err("Invalid value"), parse_octal_string("789".to_string()));
    assert_eq!(Err("Invalid value"), parse_octal_string("5000".to_string()));
}

#[test]
fn octal_string_to_rwx_string_converts() {
    assert_eq!("--x-w--wx", octal_string_to_rwx_string("123".to_string()).unwrap());
    assert_eq!("rwxrw-r-x", octal_string_to_rwx_string("765".to_string()).unwrap());

    // Failure conditions
    assert_eq!(Err("Invalid value"), octal_string_to_rwx_string("".to_string()));
    assert_eq!(Err("Invalid value"), octal_string_to_rwx_string("asfdasdds".to_string()));
    assert_eq!(Err("Invalid value"), octal_string_to_rwx_string("--x-wxrwx".to_string()));
    assert_eq!(Err("Invalid value"), octal_string_to_rwx_string("-5".to_string()));
    assert_eq!(Err("Invalid value"), octal_string_to_rwx_string("0765".to_string()));
    assert_eq!(Err("Invalid character"), octal_string_to_rwx_string("789".to_string()));
    assert_eq!(Err("Invalid value"), octal_string_to_rwx_string("5000".to_string()));
}

#[test]
fn rwx_string_to_octal_string_converts() {
    assert_eq!("137", rwx_string_to_octal_string("--x-wxrwx".to_string()).unwrap());
    assert_eq!("765", rwx_string_to_octal_string("rwxrw-r-x".to_string()).unwrap());

    // Failure conditions
    assert_eq!(Err("Invalid value"), rwx_string_to_octal_string("0765".to_string()));
    assert_eq!(Err("Invalid value"), rwx_string_to_octal_string("".to_string()));
    assert_eq!(Err("Invalid characters"), rwx_string_to_octal_string("asfdasdds".to_string()));
    assert_eq!(Err("Invalid value"), rwx_string_to_octal_string("---x-wxrwx".to_string()));
    assert_eq!(Err("Invalid value"), rwx_string_to_octal_string("-x-wxrwx".to_string()));
    assert_eq!(Err("Invalid value"), rwx_string_to_octal_string("-5".to_string()));
    assert_eq!(Err("Invalid value"), rwx_string_to_octal_string("5000".to_string()));
}

#[test]
fn rwx_string_to_table_generates() {
    assert_eq!(TABLE_137, rwx_string_to_table("--x-wxrwx".to_string()).unwrap());
}

#[test]
fn prints_the_output_of_octal() {
    assert_eq!(Ok("rwxrw-r-x".to_string()), convert("765".to_string(), false));
}

#[test]
fn prints_the_output_of_octal_with_zero() {
    assert_eq!(Ok("rwxrw-r-x".to_string()), convert("0765".to_string(), false));
}

#[test]
fn prints_the_output_of_rwx() {
    assert_eq!(Ok("137".to_string()), convert("--x-wxrwx".to_string(), false));
}

#[test]
fn prints_the_output_of_octal_with_zero_table() {
    assert_eq!(Ok(TABLE_451.to_string()), convert("0451".to_string(), true));
}

#[test]
fn prints_the_output_of_rwx_table() {
    assert_eq!(Ok(TABLE_137.to_string()), convert("--x-wxrwx".to_string(), true));
}

#[test]
fn convert_rejects_an_argument_that_is_no_mode() {
    assert_eq!(Err("Invalid value"), convert("this_is_an_invalid_argument".to_string(), false));
}

#[test]
fn round_trips_every_octal_mode() {
    for owner in 0..8u32 {
        for group in 0..8u32 {
            for other in 0..8u32 {
                let octal = format!("{}{}{}", owner, group, other);
                let symbolic = octal_string_to_rwx_string(octal.clone()).unwrap();
                assert_eq!(9, symbolic.len());
                assert_eq!(Ok(symbolic.clone()), octal_string_to_rwx_string(rwx_string_to_octal_string(symbolic.clone()).unwrap()));
                assert_eq!(Ok(octal), rwx_string_to_octal_string(symbolic));
            }
        }
    }
}

#[test]
fn round_trips_a_symbolic_mode() {
    let octal = rwx_string_to_octal_string("rw-r--r--".to_string()).unwrap();
    assert_eq!("644", octal);
    assert_eq!(Ok("rw-r--r--".to_string()), octal_string_to_rwx_string(octal));
}

#[test]
fn parse_octal_string_handles_signs_and_bounds() {
    assert_eq!(Ok("0".to_string()), parse_octal_string("0".to_string()));
    assert_eq!(Ok("0".to_string()), parse_octal_string("-0".to_string()));
    assert_eq!(Ok("5".to_string()), parse_octal_string("5".to_string()));
    assert_eq!(Ok("45".to_string()), parse_octal_string("045".to_string()));
    assert_eq!(Ok("777".to_string()), parse_octal_string("+777".to_string()));
    assert_eq!(Ok("777".to_string()), parse_octal_string("000777".to_string()));
    assert_eq!(Err("Invalid value"), parse_octal_string("778".to_string()));
    assert_eq!(Err("Invalid value"), parse_octal_string("2147483647".to_string()));
    assert_eq!(Err("Invalid value"), parse_octal_string("-2147483648".to_string()));
    assert_eq!(Err("Not a number"), parse_octal_string("2147483648".to_string()));
    assert_eq!(Err("Not a number"), parse_octal_string("-2147483649".to_string()));
    assert_eq!(Err("Not a number"), parse_octal_string("+".to_string()));
    assert_eq!(Err("Not a number"), parse_octal_string("-".to_string()));
    assert_eq!(Err("Not a number"), parse_octal_string(" 765".to_string()));
    assert_eq!(Err("Not a number"), parse_octal_string("+-5".to_string()));
    assert_eq!(Err("Not a number"), parse_octal_string("76 5".to_string()));
}

#[test]
fn parse_octal_string_keeps_short_values_unpadded() {
    assert_eq!("5", parse_octal_string("5".to_string()).unwrap());
    assert_eq!(Err("Invalid value"), convert("5".to_string(), false));
}

#[test]
fn octal_string_to_rwx_string_maps_every_digit() {
    assert_eq!("---rwxrw-", octal_string_to_rwx_string("076".to_string()).unwrap());
    assert_eq!("r--r-x-w-", octal_string_to_rwx_string("452".to_string()).unwrap());
    assert_eq!("-wx--x---", octal_string_to_rwx_string("310".to_string()).unwrap());
    assert_eq!(Err("Invalid character"), octal_string_to_rwx_string("1a2".to_string()));
    assert_eq!(Err("Invalid character"), octal_string_to_rwx_string("128".to_string()));
}

#[test]
fn rwx_string_to_octal_string_rejects_bad_groups() {
    assert_eq!(Err("Invalid characters"), rwx_string_to_octal_string("rwxwrxrwx".to_string()));
    assert_eq!(Err("Invalid characters"), rwx_string_to_octal_string("rwxrwxrwX".to_string()));
    assert_eq!(Ok("000".to_string()), rwx_string_to_octal_string("---------".to_string()));
}

#[test]
fn rwx_string_to_table_marks_letters_and_reads_nine_characters() {
    let expected = "        Owner  Group Other\n\
Read    x      x     x\n\
Write   x      x     x\n\
Execute x      x     x\n";
    assert_eq!(expected, rwx_string_to_table("rwxrwxrwxr".to_string()).unwrap());
    assert_eq!(expected, rwx_string_to_table("xxxwwwrrr".to_string()).unwrap());
    assert_eq!(Err("Not enough characters"), rwx_string_to_table("rwx".to_string()));
}

#[test]
fn convert_table_paths() {
    assert_eq!(Err("Invalid character"), convert("708".to_string(), true));
    assert_eq!(Err("Not enough characters"), convert("778".to_string(), true));
    assert_eq!(Err("Invalid value"), convert("45".to_string(), true));
    assert_eq!(Err("Not enough characters"), convert("789".to_string(), true));
    assert_eq!(Err("Invalid characters"), convert("asfdasdds".to_string(), false));
}

#[test]
fn error_messages_are_stable() {
    assert_eq!("Not a number", ModeError::NotANumber.message());
    assert_eq!("Invalid value", ModeError::InvalidValue.message());
    assert_eq!("Invalid character", ModeError::InvalidCharacter.message());
    assert_eq!("Invalid characters", ModeError::InvalidCharacters.message());
    assert_eq!("Not enough characters", ModeError::NotEnoughCharacters.message());
}
