use dash_viewer::dash::{
    check_response, frame_from_response, info_shape, read_u32, read_u64, ready_line_json,
    response_meta_len, validate_frame, write_request, DashError, FrameError, ResponseMeta,
    ResponseRead,
};

#[test]
fn validate_frame_accepts_good_and_rejects_bad() {
    // good
    assert!(validate_frame(3, 240, 720, 720, 240, 3).is_ok());
    // stride mismatch
    assert!(validate_frame(3, 200, 600, 600, 240, 3).is_err());
    // size mismatch
    assert!(validate_frame(3, 240, 480, 720, 240, 3).is_err());
    // count changed
    assert!(validate_frame(4, 240, 960, 960, 240, 3).is_err());
}

#[test]
fn validate_frame_error_kinds() {
    assert_eq!(
        validate_frame(3, 200, 600, 600, 240, 3),
        Err(FrameError::StrideMismatch { stride: 200, session_stride: 240 })
    );
    assert_eq!(
        validate_frame(usize::MAX, 240, 0, 0, 240, 3),
        Err(FrameError::ByteLengthOverflow)
    );
    assert_eq!(
        validate_frame(3, 240, 480, 720, 240, 3),
        Err(FrameError::SizeMismatch { byte_len: 480, payload_len: 720, expected: 720 })
    );
    assert_eq!(
        validate_frame(3, 240, 720, 480, 240, 3),
        Err(FrameError::SizeMismatch { byte_len: 720, payload_len: 480, expected: 720 })
    );
    assert_eq!(
        validate_frame(4, 240, 960, 960, 240, 3),
        Err(FrameError::CountChanged { session_count: 3, count: 4 })
    );
    assert_eq!(validate_frame(0, 240, 0, 0, 240, 0), Ok(()));
}

fn request_body(cmd: &str, time: Option<f64>) -> Vec<u8> {
    let mut m = serde_json::Map::new();
    m.insert("cmd".to_string(), serde_json::Value::from(cmd));
    if let Some(t) = time {
        m.insert("time".to_string(), serde_json::Value::from(t));
    }
    serde_json::to_vec(&serde_json::Value::Object(m)).unwrap()
}

#[test]
fn request_framing_is_len_prefixed_json() {
    let mut buf = Vec::new();
    write_request(&mut buf, &request_body("frame", Some(0.25))).unwrap();
    let len = u32::from_le_bytes(buf[0..4].try_into().unwrap()) as usize;
    assert_eq!(len, buf.len() - 4);
    let v: serde_json::Value = serde_json::from_slice(&buf[4..]).unwrap();
    assert_eq!(v["cmd"], "frame");
}

#[test]
fn write_request_appends_prefix_and_body() {
    let mut buf = vec![9u8];
    write_request(&mut buf, &[1, 2, 3]).unwrap();
    assert_eq!(buf, vec![9, 3, 0, 0, 0, 1, 2, 3]);
    let body = vec![0u8; 300];
    let mut buf2 = Vec::new();
    write_request(&mut buf2, &body).unwrap();
    assert_eq!(&buf2[0..4], &[44, 1, 0, 0]);
    assert_eq!(read_u32(&[buf2[0], buf2[1], buf2[2], buf2[3]]), 300);
}

fn response_bytes(meta: &serde_json::Value, payload: &[u8]) -> Vec<u8> {
    let mb = serde_json::to_vec(meta).unwrap();
    let mut out = Vec::new();
    out.extend_from_slice(&(mb.len() as u32).to_le_bytes());
    out.extend_from_slice(&mb);
    out.extend_from_slice(&(payload.len() as u64).to_le_bytes());
    out.extend_from_slice(payload);
    out
}

fn meta_from_json(v: &serde_json::Value) -> ResponseMeta {
    ResponseMeta {
        ok: v["ok"].as_bool().unwrap_or(false),
        error: v["error"].as_str().map(|s| s.to_string()),
        gaussian_count: v["gaussian_count"].as_u64().map(|n| n as usize),
        stride: v["stride"].as_u64().map(|n| n as usize),
        byte_len: v["byte_len"].as_u64().map(|n| n as usize),
    }
}

/// Reads a response from `r` the way the client does: the reader says how
/// many bytes come next, and the metadata is parsed as soon as it is read.
fn read_response<R: std::io::Read>(r: &mut R) -> Result<(ResponseMeta, Vec<u8>), String> {
    let mut step = ResponseRead::new();
    let mut meta = None;
    loop {
        if let ResponseRead::Done { payload, .. } = step {
            return Ok((meta.unwrap(), payload));
        }
        let mut bytes = vec![0u8; step.wanted()];
        r.read_exact(&mut bytes).map_err(|e| e.to_string())?;
        step = step.feed(bytes).map_err(|e| format!("{e:?}"))?;
        if let ResponseRead::PayloadLen { meta: m } = &step {
            let v: serde_json::Value = serde_json::from_slice(m).map_err(|e| e.to_string())?;
            meta = Some(meta_from_json(&v));
        }
    }
}

#[test]
fn read_response_parses_meta_and_payload() {
    let mut m = serde_json::Map::new();
    m.insert("ok".into(), serde_json::Value::from(true));
    m.insert("gaussian_count".into(), serde_json::Value::from(2));
    m.insert("stride".into(), serde_json::Value::from(240));
    m.insert("byte_len".into(), serde_json::Value::from(480));
    let payload = vec![7u8; 480];
    let buf = response_bytes(&serde_json::Value::Object(m), &payload);
    let mut cur = std::io::Cursor::new(buf);
    let (meta, p) = read_response(&mut cur).unwrap();
    assert!(meta.ok);
    assert_eq!(meta.gaussian_count, Some(2));
    assert_eq!(meta.stride, Some(240));
    assert_eq!(p.len(), 480);
}

#[test]
fn response_reader_steps() {
    let mut m = serde_json::Map::new();
    m.insert("ok".into(), serde_json::Value::from(true));
    let meta_bytes = serde_json::to_vec(&serde_json::Value::Object(m.clone())).unwrap();
    let buf = response_bytes(&serde_json::Value::Object(m), &[1, 2, 3]);
    let r = ResponseRead::new();
    assert_eq!(r, ResponseRead::MetaLen);
    assert_eq!(r.wanted(), 4);
    let r = r.feed(buf[0..4].to_vec()).unwrap();
    assert_eq!(r, ResponseRead::Meta { len: meta_bytes.len() });
    assert_eq!(r.wanted(), meta_bytes.len());
    let r = r.feed(meta_bytes.clone()).unwrap();
    assert_eq!(r, ResponseRead::PayloadLen { meta: meta_bytes.clone() });
    assert_eq!(r.wanted(), 8);
    let r = r.feed(3u64.to_le_bytes().to_vec()).unwrap();
    assert_eq!(r, ResponseRead::Payload { meta: meta_bytes.clone(), len: 3 });
    assert_eq!(r.wanted(), 3);
    let r = r.feed(vec![1, 2, 3]).unwrap();
    assert_eq!(r, ResponseRead::Done { meta: meta_bytes, payload: vec![1, 2, 3] });
    assert_eq!(r.wanted(), 0);
}

#[test]
fn response_reader_empty_payload_is_not_read() {
    let r = ResponseRead::PayloadLen { meta: b"{}".to_vec() };
    let r = r.feed(vec![0; 8]).unwrap();
    assert_eq!(r, ResponseRead::Done { meta: b"{}".to_vec(), payload: vec![] });
    let mut ok = serde_json::Map::new();
    ok.insert("ok".into(), serde_json::Value::from(true));
    let mut cur = std::io::Cursor::new(response_bytes(&serde_json::Value::Object(ok), &[]));
    let (meta, p) = read_response(&mut cur).unwrap();
    assert!(meta.ok);
    assert!(p.is_empty());
    assert_eq!(cur.position() as usize, cur.get_ref().len());
}

#[test]
fn response_reader_refuses_large_metadata() {
    assert_eq!(
        ResponseRead::new().feed(1_000_001u32.to_le_bytes().to_vec()),
        Err(DashError::MetadataTooLarge(1_000_001))
    );
    assert_eq!(
        ResponseRead::new().feed(1_000_000u32.to_le_bytes().to_vec()),
        Ok(ResponseRead::Meta { len: 1_000_000 })
    );
    assert_eq!(
        ResponseRead::new().feed(vec![0xff; 4]),
        Err(DashError::MetadataTooLarge(u32::MAX))
    );
}

#[test]
fn read_integers_little_endian() {
    assert_eq!(read_u32(&[0x78, 0x56, 0x34, 0x12]), 0x1234_5678);
    assert_eq!(read_u32(&[0xff, 0xff, 0xff, 0xff]), u32::MAX);
    assert_eq!(read_u64(&[1, 0, 0, 0, 0, 0, 0, 0x80]), 0x8000_0000_0000_0001);
    assert_eq!(read_u64(&[0xd0, 0x02, 0, 0, 0, 0, 0, 0]), 720);
}

#[test]
fn metadata_length_limit() {
    assert_eq!(response_meta_len(1_000_000), Ok(1_000_000));
    assert_eq!(response_meta_len(0), Ok(0));
    assert_eq!(response_meta_len(1_000_001), Err(DashError::MetadataTooLarge(1_000_001)));
}

fn meta(ok: bool, count: Option<usize>, stride: Option<usize>, byte_len: Option<usize>) -> ResponseMeta {
    ResponseMeta { ok, error: None, gaussian_count: count, stride, byte_len }
}

#[test]
fn response_status_is_checked() {
    assert_eq!(check_response(&meta(true, None, None, None)), Ok(()));
    assert_eq!(
        check_response(&meta(false, None, None, None)),
        Err(DashError::Sidecar("unknown error".to_string()))
    );
    let mut m = meta(false, None, None, None);
    m.error = Some("bad".to_string());
    assert_eq!(check_response(&m), Err(DashError::Sidecar("bad".to_string())));
}

#[test]
fn info_response_gives_session_shape() {
    assert_eq!(info_shape(&meta(true, Some(3), Some(240), None), 240), Ok((3, 240)));
    assert_eq!(
        info_shape(&meta(true, None, Some(240), None), 240),
        Err(DashError::InfoMissingGaussianCount)
    );
    assert_eq!(info_shape(&meta(true, Some(3), None, None), 240), Err(DashError::InfoMissingStride));
    assert_eq!(
        info_shape(&meta(true, Some(3), Some(200), None), 240),
        Err(DashError::StrideMismatch { sidecar: 200, expected: 240 })
    );
}

#[test]
fn frame_response_is_validated() {
    let f = frame_from_response(&meta(true, Some(3), Some(240), Some(720)), vec![1u8; 720], 240, 3).unwrap();
    assert_eq!(f.gaussian_count, 3);
    assert_eq!(f.stride, 240);
    assert_eq!(f.bytes.len(), 720);
    // byte_len defaults to the payload length
    let f2 = frame_from_response(&meta(true, Some(1), Some(240), None), vec![0u8; 240], 240, 1).unwrap();
    assert_eq!(f2.bytes.len(), 240);
    assert_eq!(
        frame_from_response(&meta(true, None, Some(240), None), vec![], 240, 0).unwrap_err(),
        DashError::FrameMissingGaussianCount
    );
    assert_eq!(
        frame_from_response(&meta(true, Some(0), None, None), vec![], 240, 0).unwrap_err(),
        DashError::FrameMissingStride
    );
    assert_eq!(
        frame_from_response(&meta(true, Some(3), Some(240), Some(720)), vec![1u8; 700], 240, 3).unwrap_err(),
        DashError::Frame(FrameError::SizeMismatch { byte_len: 720, payload_len: 700, expected: 720 })
    );
    assert_eq!(
        frame_from_response(&meta(true, Some(2), Some(240), None), vec![1u8; 480], 240, 3).unwrap_err(),
        DashError::Frame(FrameError::CountChanged { session_count: 3, count: 2 })
    );
}

#[test]
fn readiness_line_json() {
    let j = ready_line_json("  DASH_SIDECAR_READY {\"host\":\"127.0.0.1\",\"port\":5}\n").unwrap();
    let s: String = j.into_iter().collect();
    assert_eq!(s, "{\"host\":\"127.0.0.1\",\"port\":5}");
    assert!(ready_line_json("loading model...\n").is_none());
    assert!(ready_line_json("DASH_SIDECAR_READY").is_none());
    // the trailing space of the prefix is trimmed away with the line end
    assert!(ready_line_json("DASH_SIDECAR_READY \r\n").is_none());
    let inner: String = ready_line_json("DASH_SIDECAR_READY  {}").unwrap().into_iter().collect();
    assert_eq!(inner, " {}");
}
