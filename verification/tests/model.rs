use osprei::model::ExecutionStatus;

#[test]
fn status_codes_round_trip() {
    for code in 0..=2i64 {
        assert_eq!(ExecutionStatus::from(code).code(), code);
    }
    assert_eq!(ExecutionStatus::from(0), ExecutionStatus::Success);
    assert_eq!(ExecutionStatus::from(1), ExecutionStatus::Failed);
    assert_eq!(ExecutionStatus::from(2), ExecutionStatus::InvalidConfig);
    assert_eq!(ExecutionStatus::InvalidConfig.code(), 2);
}
