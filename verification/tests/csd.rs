use lightning::csd::{
    fill_template, parse_arg, parse_args, parse_csd, parse_description, parse_mutations, translation_parts, unbracket,
    Argument, CsdError, Mutation,
};

fn lines(text: &str) -> Vec<String> {
    text.lines().map(|l| l.to_string()).collect()
}

#[test]
fn mutations_name_their_parameter() {
    let m = parse_mutations("negate 1 double 2 foo 3 milliseconds_to_seconds 1");
    assert_eq!(m, vec![(0, Mutation::DivideBy1dp(1000)), (1, Mutation::Times(2))]);
    assert!(parse_mutations("").is_empty());
    assert!(parse_mutations("2").is_empty());
}

#[test]
fn arguments_are_values_or_ranges() {
    assert_eq!(parse_arg("#"), Some(Argument::MinMax(i64::MIN, i64::MAX)));
    assert_eq!(parse_arg("5"), Some(Argument::SingleValue(5)));
    assert_eq!(parse_arg("-3"), Some(Argument::SingleValue(-3)));
    assert_eq!(parse_arg("1|#"), Some(Argument::MinMax(1, i64::MAX)));
    assert_eq!(parse_arg("#|-1"), Some(Argument::MinMax(i64::MIN, -1)));
    assert_eq!(parse_arg("10|20"), Some(Argument::MinMax(10, 20)));
    assert_eq!(parse_arg("abc"), None);
    assert_eq!(parse_arg(""), None);
    assert_eq!(parse_args("1|# 2 "), vec![Argument::MinMax(1, i64::MAX), Argument::SingleValue(2)]);
}

#[test]
fn translation_lines_split_into_parts() {
    let parts = translation_parts("1|# \"{0:+d} to Maximum Darkness per Level\" negate 1");
    assert_eq!(parts, Some(("1|# ", "{0:+d} to Maximum Darkness per Level", Some("negate 1"))));
    let parts = translation_parts("# # \"{0} to {1}\"");
    assert_eq!(parts, Some(("# # ", "{0} to {1}", None)));
    assert_eq!(translation_parts("\"no arguments\""), None);
    assert_eq!(translation_parts("# \"\""), None);
}

#[test]
fn descriptions_read_their_count_of_translations() {
    let ls = lines("2\n\t1|# \"{0}% increased\"\n\t#|-1 \"{0}% reduced\" negate 1\nnext");
    let (r, next) = parse_description(&ls, 0);
    let trads = r.unwrap();
    assert_eq!(next, 3);
    assert_eq!(trads.len(), 2);
    assert_eq!(trads[1].text, "{0}% reduced");
    assert_eq!(trads[1].mutations, vec![(0, Mutation::Negate)]);
    assert_eq!(trads[0].args, vec![Argument::MinMax(1, i64::MAX)]);
    let (r, next) = parse_description(&lines("0"), 0);
    assert_eq!(r.err(), Some(CsdError::ZeroCount));
    assert_eq!(next, 1);
    let (r, _) = parse_description(&lines("x"), 0);
    assert_eq!(r.err(), Some(CsdError::BadCount));
    let (r, next) = parse_description(&lines("2\n\t# \"a\""), 0);
    assert_eq!(r.err(), Some(CsdError::UnexpectedEof));
    assert_eq!(next, 2);
    let (r, next) = parse_description(&lines("1\n\tnothing here"), 0);
    assert_eq!(r.err(), Some(CsdError::BadTranslation));
    assert_eq!(next, 2);
}

const FILE: &str = "no_description\ndescription\n\t1 darkness_per_level\n\t2\n\t\t1|# \"{0}% increased [HitDamage|Hit Damage]\"\n\t\t#|-1 \"{0}% reduced Damage\" negate 1\ndescription\n\t2 foo bar\n\t1\n\t\t# \"Foo {0:+d}\"\n";

#[test]
fn translation_files_map_stats_to_translations() {
    let t = parse_csd(&lines(FILE)).unwrap();
    assert_eq!(t.entries.len(), 3);
    assert_eq!(t.nb_args("darkness_per_level"), Some(1));
    assert_eq!(t.nb_args("bar"), Some(1));
    assert_eq!(t.nb_args("unknown"), None);
    let tr = t.find("darkness_per_level", &[10]).unwrap();
    assert_eq!(fill_template(&tr.text, &vec!["10".to_string()]), "10% increased Hit Damage");
    let tr = t.find("darkness_per_level", &[-5]).unwrap();
    let shown = tr.mutations[0].1.apply_exact(-5).unwrap();
    assert_eq!(fill_template(&tr.text, &vec![shown]), "5% reduced Damage");
    let tr = t.find("foo", &[3]).unwrap();
    assert_eq!(fill_template(&tr.text, &vec!["3".to_string()]), "Foo +3");
    assert!(t.find("foo", &[3, 4]).is_none());
    // A line after "description" that names no stat fails the file.
    assert_eq!(parse_csd(&lines("description\n\tnothing")).err(), Some(CsdError::BadDescription));
}

#[test]
fn templates_take_values_and_choices() {
    assert_eq!(fill_template("{} and {1}", &vec!["a".to_string(), "b".to_string()]), "a and b");
    assert_eq!(unbracket("[Hits] and [HitDamage|Hit Damage] [x"), "Hits and Hit Damage [x");
    assert_eq!(Mutation::Negate.apply_exact(7), Some("-7".to_string()));
    assert_eq!(Mutation::DivideBy0dp(10).apply_exact(-25), Some("-2".to_string()));
    assert_eq!(Mutation::DivideBy1dp(10).apply_exact(25), None);
}

#[test]
fn stats_format_with_their_chosen_translation() {
    let t = parse_csd(&lines(FILE)).unwrap();
    let decimals = |_m: &Mutation, n: i64| format!("{n}.5");
    assert_eq!(t.format("darkness_per_level", &[10], decimals), Some("10% increased Hit Damage".to_string()));
    assert_eq!(t.format("darkness_per_level", &[-5], decimals), Some("5% reduced Damage".to_string()));
    assert_eq!(t.format("bar", &[2], decimals), Some("Foo +2".to_string()));
    assert_eq!(t.format("foo", &[3, 4], decimals), None);
    assert_eq!(t.format("unknown", &[1], decimals), None);
    let halves = parse_csd(&lines("description\n\t1 half\n\t1\n\t\t# \"{0} left\" divide_by_ten_1dp 1\n")).unwrap();
    assert_eq!(halves.format("half", &[25], decimals), Some("25.5 left".to_string()));
}
