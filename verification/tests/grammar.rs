use regex::Regex;
use rustberg::partition_spec::{try_deserialize_bucket, try_deserialize_truncate, Transform};
use rustberg::schema::{try_deserialize_decimal_type, try_deserialize_fixed_type, PrimitiveType};

fn corpus(name: &str) -> Vec<String> {
    let numbers = [
        "", "0", "1", "7", "16", "38", "39", "007", "255", "256", "400", "4294967295",
        "4294967296", "99999999999999999999", "a", "a1", "1a", "-1", "+1", " 1", "1 ", "1.0",
        "١", "１２", "1_0",
    ];
    let mut out = Vec::new();
    for n in numbers {
        out.push(format!("{}[{}]", name, n));
        out.push(format!("{}({})", name, n));
        out.push(format!("{}[{}", name, n));
        out.push(format!("{}{}]", name, n));
        out.push(format!("{}[{}]]", name, n));
        out.push(format!(" {}[{}]", name, n));
        out.push(format!("{}[{}]\n", name, n));
        out.push(format!("{}[{}] ", name, n));
        out.push(format!("{}[[{}]", name, n));
        out.push(format!("{}s[{}]", name, n));
    }
    out.push(name.to_string());
    out.push(name.to_uppercase());
    out.push(String::new());
    out
}

#[test]
fn fixed_types_are_those_of_the_pattern() {
    let pattern = Regex::new(r"^fixed\[(?P<bkt>\d+)]$").unwrap();
    for text in corpus("fixed") {
        let want = pattern
            .captures(&text)
            .and_then(|c| c.name("bkt"))
            .and_then(|m| m.as_str().parse::<u32>().ok())
            .map(PrimitiveType::Fixed);
        assert_eq!(try_deserialize_fixed_type(&text).ok(), want, "{:?}", text);
    }
}

#[test]
fn buckets_and_truncations_are_those_of_the_patterns() {
    let bucket = Regex::new(r"^bucket\[(?P<bucket>\d+)\]$").unwrap();
    for text in corpus("bucket") {
        let want = bucket
            .captures(&text)
            .and_then(|c| c.name("bucket"))
            .and_then(|m| m.as_str().parse::<u32>().ok())
            .map(Transform::Bucket);
        assert_eq!(try_deserialize_bucket(&text).ok(), want, "{:?}", text);
    }
    let truncate = Regex::new(r"^truncate\[(?P<truncate>\d+)\]$").unwrap();
    for text in corpus("truncate") {
        let want = truncate
            .captures(&text)
            .and_then(|c| c.name("truncate"))
            .and_then(|m| m.as_str().parse::<u32>().ok())
            .map(Transform::Truncate);
        assert_eq!(try_deserialize_truncate(&text).ok(), want, "{:?}", text);
    }
}

#[test]
fn decimal_types_are_those_of_the_pattern_with_a_precision_in_its_domain() {
    let pattern = Regex::new(r"^decimal\((?P<p>\d+)\s*,\s*(?P<s>\d+)\)$").unwrap();
    let numbers = [
        "", "0", "1", "38", "39", "038", "255", "256", "4294967295", "4294967296", "a", "-1", "١",
    ];
    let gaps = [
        "", " ", "  ", "\t", "\n", "\r\n", "\u{b}", "\u{c}", "\u{85}", "\u{a0}", "\u{1680}",
        "\u{2000}", "\u{2005}", "\u{200a}", "\u{2028}", "\u{2029}", "\u{202f}", "\u{205f}",
        "\u{3000}", "\u{200b}", "\u{feff}", "\u{180e}", "_", ",",
    ];
    let mut texts = vec![
        "decimal".to_string(),
        "decimal()".to_string(),
        "decimal(1)".to_string(),
        "decimal[40,2]".to_string(),
        "decimal(1,2,3)".to_string(),
        "decimal(1,2))".to_string(),
        "decimal((1,2)".to_string(),
        " decimal(1,2)".to_string(),
        "decimal(1,2)\n".to_string(),
        "Decimal(1,2)".to_string(),
    ];
    for p in numbers {
        for s in numbers {
            texts.push(format!("decimal({},{})", p, s));
            texts.push(format!("decimal({}, {})", p, s));
        }
    }
    for a in gaps {
        for b in gaps {
            texts.push(format!("decimal(10{},{}2)", a, b));
        }
        texts.push(format!("decimal({}10,2)", a));
        texts.push(format!("decimal(10,2{})", a));
        texts.push(format!("decimal(1{}0,2)", a));
    }
    for text in texts {
        let want = pattern.captures(&text).and_then(|c| {
            let precision = c.name("p")?.as_str().parse::<u8>().ok()?;
            let scale = c.name("s")?.as_str().parse::<u32>().ok()?;
            if precision < 1 || precision > 38 {
                None
            } else {
                Some(PrimitiveType::Decimal { precision, scale })
            }
        });
        assert_eq!(try_deserialize_decimal_type(&text).ok(), want, "{:?}", text);
    }
}
