//! Tests for the AT line classifier and the partial-read response parser.

use nrfxlib::at::classify_line;
use nrfxlib::at::LineClass;
use nrfxlib::at::ResponseParser;
use nrfxlib::at::Terminal;
use nrfxlib::AtError;

fn classify(bytes: &[u8]) -> LineClass {
    classify_line(&bytes.to_vec())
}

#[test]
fn ok_line_is_terminal_success() {
    assert_eq!(classify(b"OK"), LineClass::TerminalOk);
    assert_eq!(classify(b"  OK \r"), LineClass::TerminalOk);
}

#[test]
fn error_line_is_generic_failure() {
    assert_eq!(classify(b"ERROR"), LineClass::TerminalFailure(AtError::Error));
}

#[test]
fn cme_error_carries_subcode() {
    assert_eq!(
        classify(b"+CME ERROR: 3"),
        LineClass::TerminalFailure(AtError::CmeError(3))
    );
}

#[test]
fn cms_error_carries_subcode() {
    assert_eq!(
        classify(b"+CMS ERROR: 311"),
        LineClass::TerminalFailure(AtError::CmsError(311))
    );
}

#[test]
fn unparsable_subcode_defaults_to_minus_one() {
    assert_eq!(
        classify(b"+CME ERROR: fatal"),
        LineClass::TerminalFailure(AtError::CmeError(-1))
    );
    assert_eq!(
        classify(b"+CMS ERROR:"),
        LineClass::TerminalFailure(AtError::CmsError(-1))
    );
}

#[test]
fn negative_and_signed_subcodes_parse() {
    assert_eq!(
        classify(b"+CME ERROR: -7"),
        LineClass::TerminalFailure(AtError::CmeError(-7))
    );
    assert_eq!(
        classify(b"+CME ERROR: +12"),
        LineClass::TerminalFailure(AtError::CmeError(12))
    );
}

#[test]
fn overlong_subcode_defaults_to_minus_one() {
    assert_eq!(
        classify(b"+CME ERROR: 99999999999999999999"),
        LineClass::TerminalFailure(AtError::CmeError(-1))
    );
}

#[test]
fn other_lines_are_indications() {
    assert_eq!(classify(b"+CEREG: 5"), LineClass::Indication);
    assert_eq!(classify(b"OKAY"), LineClass::Indication);
    assert_eq!(classify(b"ERRORS"), LineClass::Indication);
}

#[test]
fn parser_reports_indications_in_order_then_terminal() {
    let mut p = ResponseParser::new();
    let out = p.feed(b"+CGMI: Nordic\r\n+CGMM: nRF9160\r\nOK\r\n");
    assert_eq!(out.indications.len(), 2);
    assert_eq!(out.indications[0], b"+CGMI: Nordic".to_vec());
    assert_eq!(out.indications[1], b"+CGMM: nRF9160".to_vec());
    assert_eq!(out.terminal, Some(Terminal::Success));
}

#[test]
fn parser_keeps_partial_line_between_reads() {
    // A terminal line split across reads still classifies once both
    // fragments are in.
    let mut p = ResponseParser::new();
    let out = p.feed(b"O");
    assert_eq!(out.terminal, None);
    assert_eq!(out.indications.len(), 0);
    let out = p.feed(b"K\n");
    assert_eq!(out.terminal, Some(Terminal::Success));
}

#[test]
fn parser_keeps_partial_indication_between_reads() {
    let mut p = ResponseParser::new();
    let out = p.feed(b"+CGM");
    assert_eq!(out.terminal, None);
    assert_eq!(out.indications.len(), 0);
    let out = p.feed(b"I: Nordic\r\nOK\r\n");
    assert_eq!(out.indications, vec![b"+CGMI: Nordic".to_vec()]);
    assert_eq!(out.terminal, Some(Terminal::Success));
}

#[test]
fn parser_tolerates_unterminated_terminal_at_buffer_end() {
    let mut p = ResponseParser::new();
    let out = p.feed(b"+CFUN: 1\r\nOK");
    assert_eq!(out.indications, vec![b"+CFUN: 1".to_vec()]);
    assert_eq!(out.terminal, Some(Terminal::Success));
}

#[test]
fn parser_splits_on_cr_lf_and_nul() {
    let mut p = ResponseParser::new();
    let out = p.feed(b"A\rB\nC\0ERROR\r\n");
    assert_eq!(
        out.indications,
        vec![b"A".to_vec(), b"B".to_vec(), b"C".to_vec()]
    );
    assert_eq!(out.terminal, Some(Terminal::Failure(AtError::Error)));
}

#[test]
fn parser_drops_blank_lines() {
    let mut p = ResponseParser::new();
    let out = p.feed(b"\r\n\r\nDATA\r\n\r\nOK\r\n");
    assert_eq!(out.indications, vec![b"DATA".to_vec()]);
    assert_eq!(out.terminal, Some(Terminal::Success));
}

#[test]
fn parser_reports_cme_failure_terminal() {
    let mut p = ResponseParser::new();
    let out = p.feed(b"+CME ERROR: 513\r\n");
    assert_eq!(
        out.terminal,
        Some(Terminal::Failure(AtError::CmeError(513)))
    );
}

#[test]
fn split_cme_error_subcode_reassembles() {
    // The sub-code digits split across reads must reassemble to the full
    // number, not classify early from the first fragment.
    let mut p = ResponseParser::new();
    let out = p.feed(b"+CME ERROR: 3");
    assert_eq!(out.terminal, None);
    let out = p.feed(b"11\r\n");
    assert_eq!(
        out.terminal,
        Some(Terminal::Failure(AtError::CmeError(311)))
    );
}

#[test]
fn indication_is_not_reinterpreted_as_terminal() {
    let mut p = ResponseParser::new();
    let out = p.feed(b"+CME ERRORS AHEAD\r\nOK\r\n");
    assert_eq!(out.indications, vec![b"+CME ERRORS AHEAD".to_vec()]);
    assert_eq!(out.terminal, Some(Terminal::Success));
}
