//! Verified core of a TLS client bridge: error classification, the per-handle
//! error table, handle allocation, connection bookkeeping, read accumulation
//! with a size cap, HTTP response framing, and the decoding of runtime
//! strings handed over a C ABI.

mod bridge;
mod classify;
mod errors;
mod handles;
mod http;
mod mvl;
mod reader;
mod text;
mod tls;

pub use bridge::{
    codes_known, errors, handles_issued, known_errno, lemma_closed_handle_refused, lemma_failed_read_is_classified, lemma_read_modes_agree,
    lemma_connect_slot_never_open, lemma_next_handle_fresh, lemma_open_are_issued_not_closed, lemma_reported_errno_known, read_ending, Bridge,
    ConnectOutcome, Handshaking, PendingConnect, ReadMode, WriteOutcome, CONNECT_SLOT, ERRNO_OTHER,
};
pub use classify::{
    classify_error, error_kind, keywords_mentioned, lemma_cert_flag_wins, lemma_certificate_keywords_give_two,
    lemma_closed_keywords_give_three, lemma_handshake_keywords_give_one, lemma_io_keywords_give_four,
    lemma_kind_depends_only_on_keywords, lemma_no_keyword_gives_five, lemma_error_kind_code_range, mentions,
    ErrorKind,
};
pub use errors::{
    clear_err, errmsg_for, errmsg_of, errno_for, errno_of, lemma_lookup_after_clear,
    lemma_lookup_after_store, lemma_other_handles_unaffected, store_err, ErrorTable,
};
pub use handles::{next_handle, successor, HandleCounter};
pub use mvl::{
    lemma_text_ignores_capacity, lemma_text_is_first_len_bytes, mvl_bytes, mvl_text, read_str,
    MvlString,
};
pub use reader::{ReadCollector, ReadEvent, ReadOutcome, ReadStep, READ_LIMIT};
pub use text::lossy_utf8;
pub use tls::{
    accepted_server_name, anchor_model, anchor_models, closing_alert_sent, config_anchors,
    config_offers_client_cert, config_versions, distinct_anchors, server_name_of, session_anchors,
    session_server, session_versions, AnchorModel, mozilla_root_store, root_store_of, store_anchors, tls_config, tls_config_trusting,
    MOZILLA_ROOT_COUNT, TLS12_VERSION, TLS13_VERSION,
};
pub use http::{
    all_digits, blank_line_end, col_after, completes_response, content_length_head, content_length_prefix,
    digits_value, first_response, http11_prefix, lemma_completion_persists, lemma_content_length_framing,
    lemma_run_append, ok_line_end, initial_framer, lemma_done_absorbs, lemma_done_stays, lemma_fixed_body, lemma_following_bytes_ignored,
    lemma_until_close_never_completes, lemma_run_push, run, ChunkPart, Framer,
    HeaderValue, Phase, ResponseCollector, ResponseEvent, ResponseStep,
};
