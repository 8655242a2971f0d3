//! The scan that tells test-only lines of a source file from shipped ones,
//! and the tests that keep it honest.

use std::collections::HashSet;

/// Line indices (0-based) covered by a test-only item.
///
/// The span runs from the attribute line to the line that closes the item's
/// block, tracked by brace depth. An item with no block ends at its
/// semicolon. A span that never terminates is a panic, not a silent skip.
fn test_only_lines(path: &std::path::Path, content: &str) -> HashSet<usize> {
    let lines: Vec<&str> = content.lines().collect();
    let mut test_only = HashSet::new();
    let mut i = 0;

    while i < lines.len() {
        if !is_cfg_test_attr(lines[i]) {
            i += 1;
            continue;
        }

        let start = i;
        let mut depth: usize = 0;
        let mut opened = false;
        let mut terminated = false;

        while i < lines.len() {
            let code = strip_literals_and_comments(lines[i]);
            for ch in code.chars() {
                match ch {
                    '{' => {
                        depth += 1;
                        opened = true;
                    }
                    '}' => depth = depth.saturating_sub(1),
                    _ => {}
                }
            }
            i += 1;

            if opened {
                if depth == 0 {
                    terminated = true;
                    break;
                }
            } else if code.trim_end().ends_with(';') {
                terminated = true;
                break;
            }
        }

        assert!(
            terminated,
            "unterminated test-only item at {}:{}: the scan cannot tell where it ends",
            path.display(),
            start + 1
        );
        test_only.extend(start..i);
    }

    test_only
}

/// Whether `line` opens a test-only attribute. Deliberately narrow: a feature
/// named `"test-utils"` must not match.
fn is_cfg_test_attr(line: &str) -> bool {
    let trimmed = line.trim_start();
    trimmed.starts_with("#[cfg(test)]")
        || trimmed.starts_with("#[cfg(all(test")
        || trimmed.starts_with("#[cfg(any(test")
}

/// Drop string/char literals and any trailing `//` comment from `line` so that
/// braces inside them cannot skew the block-depth count.
fn strip_literals_and_comments(line: &str) -> String {
    let chars: Vec<char> = line.chars().collect();
    let mut code = String::with_capacity(line.len());
    let mut i = 0;

    while i < chars.len() {
        let c = chars[i];

        // Trailing line comment: nothing after it affects depth.
        if c == '/' && chars.get(i + 1) == Some(&'/') {
            break;
        }

        // Raw string.
        if c == 'r' && matches!(chars.get(i + 1), Some('"') | Some('#')) {
            if let Some(end) = raw_string_end(&chars, i) {
                i = end;
                continue;
            }
        }

        // Ordinary string literal.
        if c == '"' {
            i = string_end(&chars, i);
            continue;
        }

        // Char literal; a lifetime or a label is code.
        if c == '\'' {
            if let Some(end) = char_literal_end(&chars, i) {
                i = end;
                continue;
            }
        }

        code.push(c);
        i += 1;
    }

    code
}

/// End index (exclusive) of the string literal opening at `start`.
fn string_end(chars: &[char], start: usize) -> usize {
    let mut i = start + 1;
    while i < chars.len() {
        match chars[i] {
            '\\' => i += 2,
            '"' => return i + 1,
            _ => i += 1,
        }
    }
    // Unterminated on this line (a multi-line string): the rest is literal.
    chars.len()
}

/// End index (exclusive) of the raw string opening at `start`, or `None` when
/// `start` is a raw identifier rather than a raw string.
fn raw_string_end(chars: &[char], start: usize) -> Option<usize> {
    let mut i = start + 1;
    let mut hashes = 0;
    while chars.get(i) == Some(&'#') {
        hashes += 1;
        i += 1;
    }
    if chars.get(i) != Some(&'"') {
        return None;
    }
    i += 1;
    while i < chars.len() {
        if chars[i] == '"'
            && chars[i + 1..]
                .iter()
                .take(hashes)
                .filter(|c| **c == '#')
                .count()
                == hashes
        {
            return Some(i + 1 + hashes);
        }
        i += 1;
    }
    Some(chars.len())
}

/// End index (exclusive) of the char literal opening at `start`, or `None`
/// when the quote opens a lifetime or a loop label.
fn char_literal_end(chars: &[char], start: usize) -> Option<usize> {
    let mut i = start + 1;
    if chars.get(i) == Some(&'\\') {
        i += 1;
        if chars.get(i) == Some(&'u') {
            // Run to the closing quote.
            while i < chars.len() && chars[i] != '\'' {
                i += 1;
            }
            return (chars.get(i) == Some(&'\'')).then_some(i + 1);
        }
    }
    (chars.get(i + 1) == Some(&'\'')).then_some(i + 2)
}

/// The scan exemption must cover exactly the test-only item, no more and no
/// less.
#[test]
fn cfg_test_spans_cover_only_test_items() {
    let src = "\
fn client() {}
#[cfg(test)]
mod tests {
    fn helper() {
        let _ = \"} not a brace {\";
    }
}
fn also_client() {}
";
    let span = test_only_lines(std::path::Path::new("<memory>"), src);
    assert_eq!(span, (1..7).collect::<HashSet<usize>>());
}

#[test]
fn cfg_test_span_ends_at_a_block_less_item() {
    let src = "\
#[cfg(test)]
use std::net::TcpListener;
fn client() {}
";
    let span = test_only_lines(std::path::Path::new("<memory>"), src);
    assert_eq!(span, (0..2).collect::<HashSet<usize>>());
}

#[test]
fn cfg_test_span_survives_braces_in_literals() {
    let src = "\
#[cfg(test)]
mod tests {
    fn f() {
        let _ = '{';
        let _ = r#\"raw } brace\"#;
        let _ = format!(\"{}\", 1); // }
    }
}
";
    let span = test_only_lines(std::path::Path::new("<memory>"), src);
    assert_eq!(span, (0..8).collect::<HashSet<usize>>());
}

#[test]
fn non_test_cfg_attributes_are_not_exempt() {
    let src = "\
#[cfg(feature = \"test-utils\")]
mod helpers {
    fn f() {}
}
";
    assert!(test_only_lines(std::path::Path::new("<memory>"), src).is_empty());
}

#[test]
fn lifetimes_do_not_swallow_braces() {
    let code = strip_literals_and_comments("fn f<'a>(x: &'a str) -> Foo { bar }");
    assert_eq!(code.matches('{').count(), 1);
    assert_eq!(code.matches('}').count(), 1);
}
