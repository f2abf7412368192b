use vine::config::NetworkConfig;
use vine::network::address::{IpAddress, SocketAddress};
use vine::network::options::socket_options;
use vine::network::proxy_protocol::{
    resolve_header, HeaderAddress, HeaderReader, HeaderStep, ProxyError, PROXY_V2_MAGIC,
};
use vine::network::{PrefixedRead, ProxyHeaderResult};

const FALLBACK: SocketAddress = SocketAddress { ip: IpAddress::V4(0x7f00_0001), port: 1234 };

/// Reads a header as a connection does: as many bytes at a time as are asked for.
fn read_header(data: &[u8]) -> Result<ProxyHeaderResult, ProxyError> {
    let mut pos = data.len().min(12);
    let mut reader = HeaderReader::begin(data[..pos].to_vec())?;
    loop {
        match reader.step() {
            HeaderStep::Read(n) => {
                let end = data.len().min(pos + n);
                if end == pos {
                    return Err(reader.closed());
                }
                reader.feed(&data[pos..end]);
                pos = end;
            }
            HeaderStep::Fail(e) => return Err(e),
            HeaderStep::Done(address, mut leftover) => {
                leftover.extend_from_slice(&data[pos..]);
                let ip = match &address {
                    HeaderAddress::Text { ip, .. } => match ip.as_str() {
                        "198.51.100.22" => Ok(IpAddress::V4(0xc633_6416)),
                        _ => Err("invalid IP address syntax".to_string()),
                    },
                    _ => Err("none".to_string()),
                };
                return resolve_header(address, leftover, FALLBACK, ip);
            }
        }
    }
}

#[test]
fn test_proxy_v1_ipv4() {
    let res =
        read_header(b"PROXY TCP4 198.51.100.22 192.0.2.1 54321 25565\r\nHello").unwrap();
    assert_eq!(
        res.client_addr,
        SocketAddress { ip: IpAddress::V4(0xc633_6416), port: 54321 }
    );
    assert_eq!(res.leftover_bytes, b"Hello");
}

#[test]
fn test_proxy_v1_unknown() {
    let res = read_header(b"PROXY UNKNOWN\r\nMinecraftPayload").unwrap();
    assert_eq!(res.client_addr, FALLBACK);
    assert_eq!(res.leftover_bytes, b"MinecraftPayload");
}

fn v2(version_command: u8, family: u8, body: &[u8]) -> Vec<u8> {
    let mut payload = Vec::new();
    payload.extend_from_slice(&PROXY_V2_MAGIC);
    payload.push(version_command);
    payload.push(family);
    payload.extend_from_slice(&(body.len() as u16).to_be_bytes());
    payload.extend_from_slice(body);
    payload
}

#[test]
fn test_proxy_v2_ipv4() {
    let mut body = vec![10, 0, 0, 99, 192, 168, 1, 1];
    body.extend_from_slice(&45678u16.to_be_bytes());
    body.extend_from_slice(&25565u16.to_be_bytes());
    let mut payload = v2(0x21, 0x11, &body);
    payload.extend_from_slice(b"MC_PACKET");

    let res = read_header(&payload).unwrap();
    assert_eq!(
        res.client_addr,
        SocketAddress { ip: IpAddress::V4(0x0a00_0063), port: 45678 }
    );
    assert_eq!(res.leftover_bytes, b"MC_PACKET");
}

#[test]
fn proxy_v2_other_headers() {
    let mut body = vec![0u8; 36];
    body[15] = 1;
    body[32..34].copy_from_slice(&443u16.to_be_bytes());
    let v6 = read_header(&v2(0x21, 0x21, &body)).unwrap();
    assert_eq!(v6.client_addr, SocketAddress { ip: IpAddress::V6(1), port: 443 });
    let local = read_header(&v2(0x20, 0x00, &[])).unwrap();
    assert_eq!(local.client_addr, FALLBACK);
    assert_eq!(read_header(&v2(0x11, 0x11, &[0; 12])), Err(ProxyError::V2BadVersion(1)));
    assert_eq!(read_header(&v2(0x22, 0x11, &[0; 12])), Err(ProxyError::V2BadCommand(2)));
    assert_eq!(read_header(&v2(0x21, 0x11, &[0; 11])), Err(ProxyError::V2TruncatedV4));
    assert_eq!(read_header(&v2(0x21, 0x21, &[0; 35])), Err(ProxyError::V2TruncatedV6));
    let short = v2(0x21, 0x11, &[0; 12]);
    assert_eq!(read_header(&short[..14]), Err(ProxyError::V2FixedClosed));
    assert_eq!(read_header(&short[..20]), Err(ProxyError::V2BodyClosed));
}

#[test]
fn cuts_of_the_stream_do_not_matter() {
    let text = b"PROXY TCP4 198.51.100.22 192.0.2.1 54321 25565\r\nHello".to_vec();
    let mut binary = v2(0x21, 0x11, &[10, 0, 0, 99, 1, 2, 3, 4, 5, 6, 7, 8]);
    binary.extend_from_slice(b"Hello");
    for data in [text, binary] {
        let mut seen: Vec<HeaderAddress> = Vec::new();
        for first in 12..data.len() {
            for room in 1..8 {
                let mut pos = first;
                let mut reader = HeaderReader::begin(data[..pos].to_vec()).unwrap();
                while let HeaderStep::Read(_) = reader.step() {
                    let end = data.len().min(pos + room);
                    reader.feed(&data[pos..end]);
                    pos = end;
                }
                match reader.step() {
                    HeaderStep::Done(address, mut leftover) => {
                        leftover.extend_from_slice(&data[pos..]);
                        assert_eq!(leftover, b"Hello");
                        seen.push(address);
                    }
                    step => panic!("{:?}", step),
                }
            }
        }
        assert!(seen.iter().all(|a| *a == seen[0]));
    }
}

#[test]
fn proxy_v1_bad_headers() {
    assert_eq!(read_header(b""), Err(ProxyError::ClosedBeforeHeader));
    assert_eq!(read_header(b"GET / HTTP/1.1\r\n"), Err(ProxyError::UnknownHeader));
    assert_eq!(read_header(b"PROXY TCP4 1.2.3.4 "), Err(ProxyError::V1Closed));
    let long = [b"PROXY TCP4 ".to_vec(), vec![b'x'; 200]].concat();
    assert_eq!(read_header(&long), Err(ProxyError::V1TooLong));
    assert_eq!(read_header(b"PROXY TCP4 \xff\xfe\r\n"), Err(ProxyError::V1NotText));
    assert!(matches!(
        read_header(b"PROXY TCP4 1.2.3.4\r\n"),
        Err(ProxyError::V1Incomplete(_))
    ));
    assert!(matches!(
        read_header(b"PROXY TCP4 nowhere 1.1.1.1 1 2\r\n"),
        Err(ProxyError::V1BadIp(_, _))
    ));
    let bad_port = read_header(b"PROXY TCP4 198.51.100.22 1.1.1.1 70000 2\r\n").unwrap_err();
    assert!(matches!(&bad_port, ProxyError::V1BadPort(p, _) if p == "70000"));
    assert!(bad_port.message().contains("number too large to fit in target type"));
    assert!(matches!(
        read_header(b"PROXY UDP4 a b c d\r\n"),
        Err(ProxyError::V1Unsupported(_))
    ));
}

#[test]
fn every_header_error_has_words() {
    for e in [
        ProxyError::ClosedBeforeHeader,
        ProxyError::UnknownHeader,
        ProxyError::V1TooLong,
        ProxyError::V1Closed,
        ProxyError::V1NotText,
        ProxyError::V1BadPrefix,
        ProxyError::V1Incomplete("x".to_string()),
        ProxyError::V1Unsupported("x".to_string()),
        ProxyError::V2FixedClosed,
        ProxyError::V2BadVersion(1),
        ProxyError::V2BodyClosed,
        ProxyError::V2BadCommand(3),
        ProxyError::V2TruncatedV4,
        ProxyError::V2TruncatedV6,
    ] {
        assert!(!e.message().is_empty());
    }
}

fn read_to_end(stream: &mut PrefixedRead<&[u8]>, room: usize) -> Vec<u8> {
    let mut output = Vec::new();
    loop {
        let ahead = stream.read_ahead(room);
        if !ahead.is_empty() {
            output.extend_from_slice(&ahead);
            continue;
        }
        output.extend_from_slice(stream.inner);
        return output;
    }
}

#[test]
fn test_prefixed_read() {
    let prefix = b"PROXY HEADER ".to_vec();
    let mut stream = PrefixedRead::new(&b"MINECRAFT DATA"[..], prefix.clone());
    assert_eq!(read_to_end(&mut stream, 1024), b"PROXY HEADER MINECRAFT DATA");
    let mut narrow = PrefixedRead::new(&b"MINECRAFT DATA"[..], prefix);
    assert_eq!(read_to_end(&mut narrow, 1), b"PROXY HEADER MINECRAFT DATA");
}

#[test]
fn test_empty_prefix() {
    let mut stream = PrefixedRead::without_prefix(&b"ONLY DATA"[..]);
    assert_eq!(read_to_end(&mut stream, 16), b"ONLY DATA");
    let mut none = PrefixedRead::new(&b"ONLY DATA"[..], Vec::new());
    assert_eq!(read_to_end(&mut none, 16), b"ONLY DATA");
}

#[test]
fn sockets_follow_the_configuration() {
    let mut config = NetworkConfig::default();
    config.tcp_keepalive_secs = 0;
    config.recv_buffer_size = Some(4096);
    let o = socket_options(&config);
    assert_eq!(o.keepalive_secs, None);
    assert_eq!(o.recv_buffer_size, Some(4096));
    assert_eq!(o.nodelay, config.tcp_nodelay);
    config.tcp_keepalive_secs = 30;
    assert_eq!(socket_options(&config).keepalive_secs, Some(30));
}
