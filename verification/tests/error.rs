use sea_nn::ProgramError;

#[test]
fn invalid_authority_message() {
    assert_eq!(ProgramError::E000.message(), "Invalid authority");
}

#[test]
fn input_too_long_message() {
    assert_eq!(ProgramError::E001.message(), "Input too long");
}

#[test]
fn index_out_of_range_message() {
    assert_eq!(ProgramError::IndexOutOfRange.message(), "Index out of range");
}

#[test]
fn refusals_are_distinct() {
    assert_ne!(ProgramError::E000, ProgramError::E001);
    assert_ne!(ProgramError::E001, ProgramError::IndexOutOfRange);
    assert_ne!(ProgramError::E000, ProgramError::IndexOutOfRange);
}
