use cyb_model::answer_check::{grade_lowered, validate_math_answer};

const OK: &str = "\x1b[32m✓\x1b[0m";
const MAYBE: &str = "\x1b[33m?\x1b[0m";
const BAD: &str = "\x1b[31m✗\x1b[0m";

#[test]
fn clean_four_passes() {
    assert_eq!(validate_math_answer("4"), OK);
    assert_eq!(validate_math_answer("  2+2 = 4  "), OK);
    assert_eq!(validate_math_answer("The answer is FOUR."), OK);
    assert_eq!(validate_math_answer("<think>hmm, 5?</think>\n4"), OK);
}

#[test]
fn fragments_make_it_doubtful_or_broken() {
    assert_eq!(validate_math_answer("4 <|im_end|>"), MAYBE);
    assert_eq!(validate_math_answer("4 <|im_end|><|im_start|>user<|im_end|>"), BAD);
}

#[test]
fn empty_wrong_or_repetitive_fails() {
    assert_eq!(validate_math_answer("   "), BAD);
    assert_eq!(validate_math_answer("<think>4</think>"), BAD);
    assert_eq!(validate_math_answer("five"), BAD);
    let rep = "the answer is 4 ok. ".repeat(4);
    assert_eq!(validate_math_answer(&rep), BAD);
}

#[test]
fn grading_step_reads_lowered_text() {
    assert_eq!(grade_lowered("4"), "\x1b[32m✓\x1b[0m");
    assert_eq!(grade_lowered("four"), "\x1b[32m✓\x1b[0m");
    // The grading step does not lower by itself: "FOUR" has no "four".
    assert_eq!(grade_lowered("FOUR"), "\x1b[31m✗\x1b[0m");
    assert_eq!(grade_lowered("4 <|im_end|>"), "\x1b[33m?\x1b[0m");
}
