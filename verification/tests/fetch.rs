use gemini_client::error::FetchError;
use gemini_client::fetch::{
    advance, fetch, read_reply, recursive_fetch, success_body, Reply, Step, StreamEnd,
};
use gemini_client::gemini::{GeminiError, Header, Response};
use std::cell::{Cell, RefCell};

fn response(status: &str, meta: &str, body: &str) -> Response {
    Response {
        header: Header {
            status: status.to_string(),
            meta: meta.to_string(),
        },
        body: body.to_string(),
    }
}

fn closed(bytes: &[u8]) -> Reply {
    Reply {
        bytes: bytes.to_vec(),
        end: StreamEnd::Closed,
    }
}

#[test]
fn redirects_without_end_exhaust_the_limit() {
    let attempts = Cell::new(0u32);
    let asked: RefCell<Vec<String>> = RefCell::new(Vec::new());
    let transport = |url: &str, _frame: &[u8]| -> Result<Reply, FetchError> {
        attempts.set(attempts.get() + 1);
        asked.borrow_mut().push(url.to_string());
        Ok(closed(b"30 next\r\n"))
    };
    assert_eq!(
        recursive_fetch(&transport, "start", 3),
        Err(FetchError::TooManyRedirects(3))
    );
    assert_eq!(attempts.get(), 4);
    assert_eq!(
        *asked.borrow(),
        vec![
            "start".to_string(),
            "next".to_string(),
            "next".to_string(),
            "next".to_string()
        ]
    );
}

#[test]
fn redirects_without_end_take_one_fetch_more_than_the_limit() {
    for limit in [0u32, 1, 2, 5, 10, 40] {
        let attempts = Cell::new(0u32);
        let transport = |_url: &str, _frame: &[u8]| -> Result<Reply, FetchError> {
            attempts.set(attempts.get() + 1);
            Ok(closed(b"31 gemini://example.org/again\r\n"))
        };
        assert_eq!(
            recursive_fetch(&transport, "gemini://example.org/", limit),
            Err(FetchError::TooManyRedirects(limit))
        );
        assert_eq!(attempts.get(), limit + 1);
    }
}

#[test]
fn a_redirect_then_an_answer_takes_two_fetches() {
    for limit in [1u32, 2, 3, 10, u32::MAX] {
        let attempts = Cell::new(0u32);
        let asked: RefCell<Vec<String>> = RefCell::new(Vec::new());
        let transport = |url: &str, _frame: &[u8]| -> Result<Reply, FetchError> {
            attempts.set(attempts.get() + 1);
            asked.borrow_mut().push(url.to_string());
            if attempts.get() == 1 {
                Ok(closed(b"30 next\r\n"))
            } else {
                Ok(closed(b"20 ok\r\n"))
            }
        };
        assert_eq!(
            recursive_fetch(&transport, "start", limit),
            Ok(response("20", "ok", ""))
        );
        assert_eq!(attempts.get(), 2);
        assert_eq!(*asked.borrow(), vec!["start".to_string(), "next".to_string()]);
    }
}

#[test]
fn no_redirect_is_followed_where_the_limit_is_zero() {
    let attempts = Cell::new(0u32);
    let transport = |_url: &str, _frame: &[u8]| -> Result<Reply, FetchError> {
        attempts.set(attempts.get() + 1);
        if attempts.get() == 1 {
            Ok(closed(b"30 next\r\n"))
        } else {
            Ok(closed(b"20 ok\r\n"))
        }
    };
    assert_eq!(
        recursive_fetch(&transport, "start", 0),
        Err(FetchError::TooManyRedirects(0))
    );
    assert_eq!(attempts.get(), 1);
}

#[test]
fn an_answer_ends_the_chain_at_once() {
    for limit in [0u32, 1, 7] {
        for (bytes, status, meta, body) in [
            (&b"20 text/gemini\r\n# hello\n"[..], "20", "text/gemini", "# hello\n"),
            (&b"10 name?\r\n"[..], "10", "name?", ""),
            (&b"44 slow down\r\n"[..], "44", "slow down", ""),
            (&b"51 not found\r\n"[..], "51", "not found", ""),
            (&b"60 certificate\r\n"[..], "60", "certificate", ""),
        ] {
            let attempts = Cell::new(0u32);
            let transport = |_url: &str, _frame: &[u8]| -> Result<Reply, FetchError> {
                attempts.set(attempts.get() + 1);
                Ok(closed(bytes))
            };
            assert_eq!(
                recursive_fetch(&transport, "gemini://example.org/", limit),
                Ok(response(status, meta, body))
            );
            assert_eq!(attempts.get(), 1);
        }
    }
}

#[test]
fn the_chain_follows_each_redirect_to_its_meta_field() {
    let asked: RefCell<Vec<String>> = RefCell::new(Vec::new());
    let transport = |url: &str, _frame: &[u8]| -> Result<Reply, FetchError> {
        asked.borrow_mut().push(url.to_string());
        match url {
            "a" => Ok(closed(b"30 b\r\n")),
            "b" => Ok(closed(b"31 c\r\nignored body")),
            "c" => Ok(closed(b"39 d\r\n")),
            _ => Ok(closed(b"20 text/plain\r\nthe end")),
        }
    };
    assert_eq!(
        recursive_fetch(&transport, "a", 3),
        Ok(response("20", "text/plain", "the end"))
    );
    assert_eq!(
        *asked.borrow(),
        vec!["a".to_string(), "b".to_string(), "c".to_string(), "d".to_string()]
    );
    asked.borrow_mut().clear();
    assert_eq!(
        recursive_fetch(&transport, "a", 2),
        Err(FetchError::TooManyRedirects(2))
    );
    assert_eq!(
        *asked.borrow(),
        vec!["a".to_string(), "b".to_string(), "c".to_string()]
    );
}

#[test]
fn the_chain_does_not_look_for_cycles() {
    let attempts = Cell::new(0u32);
    let transport = |url: &str, _frame: &[u8]| -> Result<Reply, FetchError> {
        attempts.set(attempts.get() + 1);
        if url == "ping" {
            Ok(closed(b"30 pong\r\n"))
        } else {
            Ok(closed(b"30 ping\r\n"))
        }
    };
    assert_eq!(
        recursive_fetch(&transport, "ping", 9),
        Err(FetchError::TooManyRedirects(9))
    );
    assert_eq!(attempts.get(), 10);
}

#[test]
fn the_transport_is_handed_the_framed_request() {
    let frames: RefCell<Vec<Vec<u8>>> = RefCell::new(Vec::new());
    let transport = |url: &str, frame: &[u8]| -> Result<Reply, FetchError> {
        frames.borrow_mut().push(frame.to_vec());
        if url == "start" {
            Ok(closed(b"30 gemini://example.org/next\r\n"))
        } else {
            Ok(closed(b"20 ok\r\n"))
        }
    };
    assert_eq!(
        recursive_fetch(&transport, "start", 5),
        Ok(response("20", "ok", ""))
    );
    assert_eq!(
        *frames.borrow(),
        vec![
            b"start\r\n".to_vec(),
            b"gemini://example.org/next\r\n".to_vec()
        ]
    );
}

#[test]
fn a_failure_of_the_transport_ends_the_chain() {
    let attempts = Cell::new(0u32);
    let transport = |_url: &str, _frame: &[u8]| -> Result<Reply, FetchError> {
        attempts.set(attempts.get() + 1);
        if attempts.get() == 1 {
            Ok(closed(b"30 next\r\n"))
        } else {
            Err(FetchError::ConnectionFailed("refused".to_string()))
        }
    };
    assert_eq!(
        recursive_fetch(&transport, "start", 5),
        Err(FetchError::ConnectionFailed("refused".to_string()))
    );
    assert_eq!(attempts.get(), 2);
}

#[test]
fn a_reply_that_does_not_decode_ends_the_chain() {
    let transport = |_url: &str, _frame: &[u8]| -> Result<Reply, FetchError> {
        Ok(closed(b"30 next"))
    };
    assert_eq!(
        recursive_fetch(&transport, "start", 5),
        Err(FetchError::InvalidResponse(GeminiError::MissingCRLF))
    );
}

#[test]
fn a_status_without_category_ends_the_chain() {
    let attempts = Cell::new(0u32);
    let transport = |_url: &str, _frame: &[u8]| -> Result<Reply, FetchError> {
        attempts.set(attempts.get() + 1);
        Ok(closed(b"70 next\r\n"))
    };
    assert_eq!(
        recursive_fetch(&transport, "start", 5),
        Err(FetchError::UnknownStatus("70".to_string()))
    );
    assert_eq!(attempts.get(), 1);
}

#[test]
fn fetch_asks_once_and_decodes_the_reply() {
    let seen: RefCell<Vec<(String, Vec<u8>)>> = RefCell::new(Vec::new());
    let transport = |url: &str, frame: &[u8]| -> Result<Reply, FetchError> {
        seen.borrow_mut().push((url.to_string(), frame.to_vec()));
        Ok(closed(b"30 gemini://example.org/next\r\n"))
    };
    // One fetch does not follow the redirect.
    assert_eq!(
        fetch(&transport, "gemini://example.org/"),
        Ok(response("30", "gemini://example.org/next", ""))
    );
    assert_eq!(
        *seen.borrow(),
        vec![(
            "gemini://example.org/".to_string(),
            b"gemini://example.org/\r\n".to_vec()
        )]
    );
}

#[test]
fn fetch_passes_on_the_failure_of_the_transport() {
    for error in [
        FetchError::InvalidHost,
        FetchError::InvalidDnsName,
        FetchError::UnknownScheme("https".to_string()),
        FetchError::ConnectionFailed("no route".to_string()),
        FetchError::SendFailed("broken pipe".to_string()),
    ] {
        let transport = |_url: &str, _frame: &[u8]| -> Result<Reply, FetchError> {
            match &error {
                FetchError::InvalidHost => Err(FetchError::InvalidHost),
                FetchError::InvalidDnsName => Err(FetchError::InvalidDnsName),
                FetchError::UnknownScheme(scheme) => Err(FetchError::UnknownScheme(scheme.clone())),
                FetchError::ConnectionFailed(message) => {
                    Err(FetchError::ConnectionFailed(message.clone()))
                }
                FetchError::SendFailed(message) => Err(FetchError::SendFailed(message.clone())),
                _ => unreachable!(),
            }
        };
        assert_eq!(fetch(&transport, "gemini://example.org/"), Err(error));
    }
}

#[test]
fn fetch_does_not_judge_the_status() {
    let transport = |_url: &str, _frame: &[u8]| -> Result<Reply, FetchError> {
        Ok(closed(b"99 odd\r\n"))
    };
    assert_eq!(fetch(&transport, "x"), Ok(response("99", "odd", "")));
}

#[test]
fn read_reply_decodes_a_stream_that_was_closed() {
    assert_eq!(
        read_reply(closed(b"20 text/gemini\r\nhello")),
        Ok(response("20", "text/gemini", "hello"))
    );
}

#[test]
fn read_reply_takes_a_dropped_connection_for_the_end() {
    let reply = Reply {
        bytes: b"20 text/gemini\r\nhello".to_vec(),
        end: StreamEnd::Aborted,
    };
    assert_eq!(read_reply(reply), Ok(response("20", "text/gemini", "hello")));
    let reply = Reply {
        bytes: b"20 text/gemini".to_vec(),
        end: StreamEnd::Aborted,
    };
    assert_eq!(
        read_reply(reply),
        Err(FetchError::InvalidResponse(GeminiError::MissingCRLF))
    );
}

#[test]
fn read_reply_reports_a_stream_that_broke() {
    let reply = Reply {
        bytes: b"20 text/gemini\r\nhello".to_vec(),
        end: StreamEnd::Failed("connection reset".to_string()),
    };
    assert_eq!(
        read_reply(reply),
        Err(FetchError::ReadFailed("connection reset".to_string()))
    );
    let reply = Reply {
        bytes: Vec::new(),
        end: StreamEnd::Failed(String::new()),
    };
    assert_eq!(read_reply(reply), Err(FetchError::ReadFailed(String::new())));
}

#[test]
fn read_reply_wraps_what_decoding_refuses() {
    assert_eq!(
        read_reply(closed(b"")),
        Err(FetchError::InvalidResponse(GeminiError::MissingCRLF))
    );
    assert_eq!(
        read_reply(closed(b"2\r\n")),
        Err(FetchError::InvalidResponse(GeminiError::HeaderTooShort))
    );
    assert_eq!(
        read_reply(closed(b"20text\r\n")),
        Err(FetchError::InvalidResponse(GeminiError::MissingSpaceCharacter))
    );
    let broken = std::str::from_utf8(&[0xFF]).unwrap_err();
    assert_eq!(
        read_reply(closed(&[0x32, 0x30, 0x20, 0x0D, 0x0A, 0xFF])),
        Err(FetchError::InvalidResponse(GeminiError::Utf8Error(broken)))
    );
}

#[test]
fn advance_follows_a_redirect_below_the_limit() {
    assert_eq!(
        advance(Ok(response("30", "next", "")), 0, 1),
        Step::Follow {
            url: "next".to_string(),
            redirects: 1
        }
    );
    assert_eq!(
        advance(Ok(response("31", "gemini://example.org/", "body")), 2, 3),
        Step::Follow {
            url: "gemini://example.org/".to_string(),
            redirects: 3
        }
    );
    assert_eq!(
        advance(Ok(response("3", "", "")), u32::MAX - 1, u32::MAX),
        Step::Follow {
            url: String::new(),
            redirects: u32::MAX
        }
    );
}

#[test]
fn advance_stops_a_redirect_at_the_limit() {
    assert_eq!(
        advance(Ok(response("30", "next", "")), 3, 3),
        Step::Done(Err(FetchError::TooManyRedirects(3)))
    );
    assert_eq!(
        advance(Ok(response("30", "next", "")), 0, 0),
        Step::Done(Err(FetchError::TooManyRedirects(0)))
    );
    assert_eq!(
        advance(Ok(response("30", "next", "")), 7, 3),
        Step::Done(Err(FetchError::TooManyRedirects(3)))
    );
    assert_eq!(
        advance(Ok(response("30", "next", "")), u32::MAX, u32::MAX),
        Step::Done(Err(FetchError::TooManyRedirects(u32::MAX)))
    );
}

#[test]
fn advance_ends_on_any_other_category() {
    for status in ["10", "20", "40", "50", "60", "2"] {
        for redirects in [0u32, 3, 4] {
            assert_eq!(
                advance(Ok(response(status, "meta", "body")), redirects, 3),
                Step::Done(Ok(response(status, "meta", "body")))
            );
        }
    }
}

#[test]
fn advance_ends_on_a_status_without_category() {
    assert_eq!(
        advance(Ok(response("70", "next", "")), 0, 3),
        Step::Done(Err(FetchError::UnknownStatus("70".to_string())))
    );
    assert_eq!(
        advance(Ok(response("", "next", "")), 0, 3),
        Step::Done(Err(FetchError::UnknownStatus(String::new())))
    );
}

#[test]
fn advance_ends_on_a_failure() {
    assert_eq!(
        advance(Err(FetchError::ReadFailed("reset".to_string())), 1, 3),
        Step::Done(Err(FetchError::ReadFailed("reset".to_string())))
    );
    assert_eq!(
        advance(
            Err(FetchError::InvalidResponse(GeminiError::HeaderTooShort)),
            0,
            0
        ),
        Step::Done(Err(FetchError::InvalidResponse(GeminiError::HeaderTooShort)))
    );
}

#[test]
fn success_body_hands_out_the_body_of_a_success() {
    assert_eq!(
        success_body(response("20", "text/gemini", "# hello\n")),
        Ok("# hello\n".to_string())
    );
    assert_eq!(success_body(response("2", "", "")), Ok(String::new()));
    assert_eq!(
        success_body(response("29", "anything", "body")),
        Ok("body".to_string())
    );
}

#[test]
fn success_body_reports_any_other_category() {
    for (status, meta) in [
        ("10", "name?"),
        ("30", "gemini://example.org/"),
        ("44", "slow down"),
        ("51", "not found"),
        ("60", "certificate needed"),
    ] {
        assert_eq!(
            success_body(response(status, meta, "body that is not shown")),
            Err(FetchError::Unsuccessful {
                status: status.to_string(),
                meta: meta.to_string(),
            })
        );
    }
}

#[test]
fn success_body_does_not_know_a_status_without_category() {
    assert_eq!(
        success_body(response("70", "meta", "body")),
        Err(FetchError::UnknownStatus("70".to_string()))
    );
    assert_eq!(
        success_body(response("", "meta", "body")),
        Err(FetchError::UnknownStatus(String::new()))
    );
}
