use untrusted::{read_all_optional, EndOfInput, Input, Reader};

#[test]
fn read_bytes_takes_each_prefix() {
    let b: &[u8] = &[10, 20, 30, 40];
    for n in 0..=b.len() {
        let mut r = Reader::new(Input::from(b));
        let got = r.read_bytes(n).unwrap();
        assert!(got == &b[..n]);
        assert_eq!(got.len(), n);
        assert!(r.read_bytes_to_end() == &b[n..]);
    }
}

#[test]
fn read_bytes_past_end_changes_nothing() {
    let b: &[u8] = &[1, 2, 3];
    let mut r = Reader::new(Input::from(b));
    assert_eq!(r.read_bytes(5), Err(EndOfInput));
    assert_eq!(r.read_bytes(4), Err(EndOfInput));
    assert_eq!(r.read_bytes_to_end().len(), 3);
}

#[test]
fn read_bytes_of_zero_succeeds_at_end() {
    let mut r = Reader::new(Input::from(&[]));
    assert!(r.read_bytes(0).unwrap().is_empty());
    assert_eq!(r.skip(0), Ok(()));
    assert!(r.at_end());
}

#[test]
fn read_byte_walks_the_buffer() {
    let b: &[u8] = &[0x41, 0x42];
    let mut r = Reader::new(Input::from(b));
    assert_eq!(r.read_byte(), Ok(0x41));
    assert_eq!(r.read_byte(), Ok(0x42));
    assert_eq!(r.read_byte(), Err(EndOfInput));
    assert!(r.at_end());
}

#[test]
fn read_byte_walks_a_longer_buffer() {
    let b: Vec<u8> = (0u8..=200).collect();
    let mut r = Reader::new(Input::from(&b));
    for x in &b {
        assert_eq!(r.read_byte(), Ok(*x));
    }
    assert_eq!(r.read_byte(), Err(EndOfInput));
}

#[test]
fn read_all_rejects_trailing_bytes() {
    let b: &[u8] = &[1, 2, 3];
    let res: Result<u8, &str> = Input::from(b).read_all("incomplete", |r| {
        let _ = r.read_byte().map_err(|_| "eof")?;
        let _ = r.read_byte().map_err(|_| "eof")?;
        Ok(9)
    });
    assert_eq!(res, Err("incomplete"));
}

#[test]
fn read_all_returns_value_when_all_read() {
    let b: &[u8] = &[1, 2, 3];
    let res: Result<u32, &str> = Input::from(b).read_all("incomplete", |r| {
        let mut sum = 0u32;
        while !r.at_end() {
            sum += u32::from(r.read_byte().map_err(|_| "eof")?);
        }
        Ok(sum)
    });
    assert_eq!(res, Ok(6));
}

#[test]
fn read_all_passes_errors_through() {
    let b: &[u8] = &[1];
    let res: Result<u8, &str> = Input::from(b).read_all("incomplete", |r| {
        let _ = r.read_bytes(2).map_err(|_| "short")?;
        Ok(0)
    });
    assert_eq!(res, Err("short"));
    let res: Result<u8, &str> = Input::from(b).read_all("incomplete", |_| Err("refused"));
    assert_eq!(res, Err("refused"));
}

#[test]
fn read_all_after_skip_to_end_succeeds() {
    let b: &[u8] = &[5, 6, 7];
    let res: Result<u8, ()> = Input::from(b).read_all((), |r| {
        let first = r.read_byte().map_err(|_| ())?;
        r.skip_to_end();
        Ok(first)
    });
    assert_eq!(res, Ok(5));
}

#[test]
fn read_all_optional_with_and_without_input() {
    let b: &[u8] = &[4, 2];
    let present = read_all_optional(Some(Input::from(b)), "incomplete", |r| match r {
        Some(r) => r.read_byte().map_err(|_| "eof"),
        None => Ok(0),
    });
    assert_eq!(present, Err("incomplete"));
    let whole = read_all_optional(Some(Input::from(b)), "incomplete", |r| match r {
        Some(r) => {
            let hi = r.read_byte().map_err(|_| "eof")?;
            let lo = r.read_byte().map_err(|_| "eof")?;
            Ok(hi * 10 + lo)
        }
        None => Ok(0),
    });
    assert_eq!(whole, Ok(42));
    let absent = read_all_optional(None, "incomplete", |r: Option<&mut Reader>| match r {
        Some(_) => Ok(1),
        None => Ok(77),
    });
    assert_eq!(absent, Ok(77));
}

#[test]
fn read_partial_returns_consumed_prefix() {
    let b: &[u8] = &[0x01, 0x02, 0x03, 0x04];
    let mut r = Reader::new(Input::from(b));
    let (consumed, value) = r
        .read_partial(|r| {
            let x = r.read_byte()?;
            let y = r.read_byte()?;
            Ok::<u8, EndOfInput>(x + y)
        })
        .unwrap();
    assert!(consumed == &[0x01u8, 0x02][..]);
    assert_eq!(value, 3);
    assert!(r.read_bytes_to_end() == &[0x03u8, 0x04][..]);
}

#[test]
fn read_partial_of_nothing_and_of_everything() {
    let b: &[u8] = &[9, 8, 7];
    let mut r = Reader::new(Input::from(b));
    let (none, _) = r.read_partial(|_| Ok::<(), EndOfInput>(())).unwrap();
    assert!(none.is_empty());
    let (all, _) = r.read_partial(|r| Ok::<(), EndOfInput>(r.skip_to_end())).unwrap();
    assert!(all == b);
    assert!(r.at_end());
}

#[test]
fn read_partial_passes_errors_through() {
    let b: &[u8] = &[1, 2];
    let mut r = Reader::new(Input::from(b));
    let res = r.read_partial(|r| r.read_bytes(3).map(|_| ()));
    assert_eq!(res.err(), Some(EndOfInput));
    assert_eq!(r.read_bytes_to_end().len(), 2);
}

#[test]
fn skip_to_end_reaches_end_and_is_idempotent() {
    let b: &[u8] = &[1, 2, 3];
    let mut r = Reader::new(Input::from(b));
    r.skip_to_end();
    assert!(r.at_end());
    r.skip_to_end();
    assert!(r.at_end());
    assert!(r.read_bytes_to_end().is_empty());
}

#[test]
fn empty_buffer_is_at_end() {
    let mut r = Reader::new(Input::from(&[]));
    assert!(r.at_end());
    assert_eq!(r.read_byte(), Err(EndOfInput));
    r.skip_to_end();
    assert!(r.at_end());
    assert!(!r.peek(0));
}

#[test]
fn skip_advances_or_fails_whole() {
    let b: &[u8] = &[1, 2, 3, 4];
    let mut r = Reader::new(Input::from(b));
    assert_eq!(r.skip(3), Ok(()));
    assert_eq!(r.skip(2), Err(EndOfInput));
    assert_eq!(r.read_byte(), Ok(4));
}

#[test]
fn peek_reads_nothing() {
    let b: &[u8] = &[7, 8];
    let mut r = Reader::new(Input::from(b));
    assert!(r.peek(7));
    assert!(!r.peek(8));
    assert_eq!(r.read_byte(), Ok(7));
    assert!(r.peek(8));
}
