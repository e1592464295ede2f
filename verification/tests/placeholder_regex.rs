use regex::Regex;
use workflow_core::placeholder_identifiers;

fn with_regex(arg: &str) -> Vec<String> {
    let re = Regex::new(r"\{\{([\w,\-]+)\}\}").unwrap();
    re.captures_iter(arg).map(|caps| caps.extract::<1>().1[0].to_string()).collect()
}

#[test]
fn placeholders_agree_with_the_pattern() {
    let samples = [
        "",
        "plain",
        "{{a}}",
        "{{a}} {{b}}",
        "{{a}}{{b}}",
        "{{{a}}}",
        "{{{{a}}}}",
        "{{a}}}}",
        "{{}}",
        "{{ a }}",
        "{{a b}}",
        "{{a,b-c_d}}",
        "{{a.b}} {{c}}",
        "--data_id={{data_id}} --endpoint {{REST_ENDPOINT}}",
        "{{größe}} {{naïve}} {{日本語}} {{x٣}}",
        "{{a}",
        "{a}}",
        "{{-}} {{,}} {{_}}",
        "{{\u{200d}}}",
        "{{a\u{301}}}",
        "{{€}}",
        "x{{y}}z{{",
    ];
    for s in samples {
        assert_eq!(placeholder_identifiers(s), with_regex(s), "sample {:?}", s);
    }
}
