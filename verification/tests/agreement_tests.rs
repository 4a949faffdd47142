use cmux_preview_proxy::acp_client::{canonical_language_token, normalize_code_fences};
use cmux_preview_proxy::headers::tokens_of;
use cmux_preview_proxy::listen::{sort_listens, ListenAddr};
use cmux_preview_proxy::templates::file_extension;
use cmux_preview_proxy::text::{
    chars_of, ends_with, find_char, find_last_char, format_u32, parse_u16, split, starts_with,
    string_of, to_lower, trimmed,
};
use cmux_preview_proxy::workspace_proxy::{parse_port, workspace_ip_from_name};

/// A small generator of repeatable pseudo-random numbers.
struct Numbers(u64);

impl Numbers {
    fn next(&mut self) -> u64 {
        self.0 = self.0.wrapping_mul(6364136223846793005).wrapping_add(1442695040888963407);
        self.0 >> 33
    }

    fn text(&mut self, alphabet: &[char], max_len: u64) -> String {
        let len = self.next() % (max_len + 1);
        (0..len).map(|_| alphabet[(self.next() % alphabet.len() as u64) as usize]).collect()
    }
}

fn chars(s: &str) -> Vec<char> {
    s.chars().collect()
}

#[test]
fn text_helpers_agree_with_the_standard_library() {
    let alphabet = ['a', 'B', '-', '.', ' ', '\t', 'é', '1', ',', ':'];
    let mut numbers = Numbers(1);
    for _ in 0..2000 {
        let s = numbers.text(&alphabet, 12);
        let p = numbers.text(&alphabet, 3);
        let v = chars(&s);
        assert_eq!(chars_of(&s), v);
        assert_eq!(string_of(&v), s);
        assert_eq!(string_of(&to_lower(&v)), s.to_ascii_lowercase());
        assert_eq!(starts_with(&v, &chars(&p)), s.starts_with(&p), "{:?} {:?}", s, p);
        assert_eq!(ends_with(&v, &chars(&p)), s.ends_with(&p), "{:?} {:?}", s, p);
        assert_eq!(find_char(&v, '-'), v.iter().position(|c| *c == '-'));
        assert_eq!(find_last_char(&v, '-'), v.iter().rposition(|c| *c == '-'));
        let pieces: Vec<String> = split(&v, ',').iter().map(string_of).collect();
        let expected: Vec<String> = s.split(',').map(|x| x.to_string()).collect();
        assert_eq!(pieces, expected);
        assert_eq!(
            string_of(&trimmed(&v, ' ', '\t')),
            s.trim_matches(|c| c == ' ' || c == '\t')
        );
        let tokens: Vec<String> = tokens_of(&v).iter().map(string_of).collect();
        let expected: Vec<String> = s
            .split(',')
            .map(|t| t.trim_matches(|c| c == ' ' || c == '\t').to_ascii_lowercase())
            .filter(|t| !t.is_empty())
            .collect();
        assert_eq!(tokens, expected);
    }
}

#[test]
fn numbers_agree_with_the_standard_library() {
    let alphabet = ['0', '1', '5', '6', '9', '+', '-', 'x'];
    let mut numbers = Numbers(2);
    for _ in 0..4000 {
        let s = numbers.text(&alphabet, 7);
        let expected = if s.starts_with('+') || s.starts_with('-') { None } else { s.parse::<u16>().ok() };
        assert_eq!(parse_u16(&chars(&s)), expected, "{:?}", s);
        let expected = if s.starts_with('-') { None } else { s.parse::<u16>().ok() };
        assert_eq!(parse_port(&chars(&s)), expected, "{:?}", s);
    }
    for n in [0u32, 1, 9, 10, 99, 100, 65535, 65536, 4294967295] {
        assert_eq!(string_of(&format_u32(n)), n.to_string());
    }
    let mut numbers = Numbers(3);
    for _ in 0..1000 {
        let n = numbers.next() as u32;
        assert_eq!(string_of(&format_u32(n)), n.to_string());
    }
}

fn expected_workspace_ip(name: &str) -> Option<[u8; 4]> {
    let base = name.rsplit('/').next().unwrap_or(name);
    let digits: String = base
        .chars()
        .rev()
        .take_while(|c| c.is_ascii_digit())
        .collect::<String>()
        .chars()
        .rev()
        .collect();
    let n: u32 = if !digits.is_empty() {
        digits.parse().ok()?
    } else {
        let mut h: u32 = 0x811C9DC5;
        for b in base.to_ascii_lowercase().as_bytes() {
            h ^= *b as u32;
            h = h.wrapping_mul(0x01000193);
        }
        h & 0xFFFF
    };
    Some([127, 18, ((n >> 8) & 0xFF) as u8, (n & 0xFF) as u8])
}

#[test]
fn workspace_addresses_agree_with_their_definition() {
    let alphabet = ['w', 'S', '-', '/', '0', '1', '9', 'é', '_'];
    let mut numbers = Numbers(4);
    for _ in 0..3000 {
        let s = numbers.text(&alphabet, 14);
        assert_eq!(workspace_ip_from_name(&s), expected_workspace_ip(&s), "{:?}", s);
    }
}

fn expected_fences(content: &str) -> String {
    let mut normalized = String::with_capacity(content.len());
    for line in content.split_inclusive('\n') {
        let (body, newline) = match line.strip_suffix('\n') {
            Some(stripped) => (stripped, "\n"),
            None => (line, ""),
        };
        if let Some(lang) = body.strip_prefix("```") {
            let lang = lang.trim();
            normalized.push_str("```");
            if !lang.is_empty() {
                normalized.push_str(&canonical_language_token(lang));
            }
        } else {
            normalized.push_str(body);
        }
        normalized.push_str(newline);
    }
    normalized
}

#[test]
fn code_fences_agree_with_their_definition() {
    let alphabet = ['`', '`', '`', '\n', ' ', 'j', 's', 'P', 'y', '.', '\u{a0}'];
    let mut numbers = Numbers(5);
    for _ in 0..3000 {
        let s = numbers.text(&alphabet, 16);
        assert_eq!(normalize_code_fences(&s), expected_fences(&s), "{:?}", s);
    }
}

#[test]
fn extensions_agree_with_the_standard_library() {
    let alphabet = ['a', '.', 'j', 's'];
    let mut numbers = Numbers(6);
    for _ in 0..2000 {
        let s = numbers.text(&alphabet, 8);
        if s.is_empty() || s == "." || s == ".." {
            continue;
        }
        let expected = std::path::Path::new(&s)
            .extension()
            .and_then(|e| e.to_str())
            .map(|e| e.to_string());
        assert_eq!(file_extension(&s), expected, "{:?}", s);
    }
}

#[test]
fn listen_order_agrees_with_a_stable_sort() {
    let ips = ["0.0.0.0", "10.0.0.1", "10.0.0.10", "127.0.0.1", "9.9.9.9", "::", "::1", "fe80::1"];
    let mut numbers = Numbers(7);
    for _ in 0..500 {
        let len = numbers.next() % 9;
        let listens: Vec<ListenAddr> = (0..len)
            .map(|_| {
                let ip = ips[(numbers.next() % ips.len() as u64) as usize];
                ListenAddr {
                    ip: ip.to_string(),
                    is_v4: !ip.contains(':'),
                    port: (numbers.next() % 3) as u16,
                }
            })
            .collect();
        let mut expected: Vec<(u16, String)> =
            listens.iter().map(|a| (a.port, a.ip.clone())).collect();
        expected.sort_by(|a, b| a.0.cmp(&b.0).then(a.1.cmp(&b.1)));
        let sorted: Vec<(u16, String)> =
            sort_listens(&listens).iter().map(|a| (a.port, a.ip.clone())).collect();
        assert_eq!(sorted, expected);
    }
}
