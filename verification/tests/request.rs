use radula::request::vesperae;
use radula::request::OfficiumDate;

#[test]
fn vesperae_formats_the_date_month_day_year() {
    let date = OfficiumDate { year: 2026, month: 1, day: 5 };
    let params = vesperae(&date);
    let pairs = params.query_pairs();
    assert_eq!(pairs[0], ("date", "01-05-2026"));
}

#[test]
fn vesperae_pads_and_orders_every_component() {
    let date = OfficiumDate { year: 843, month: 12, day: 31 };
    let params = vesperae(&date);
    assert_eq!(params.query_pairs()[0].1, "12-31-0843");
}

#[test]
fn path_and_fixed_query_settings() {
    let date = OfficiumDate { year: 2025, month: 2, day: 5 };
    let params = vesperae(&date);
    assert_eq!(params.path(), "/cgi-bin/horas/officium.pl");
    let pairs = params.query_pairs();
    assert_eq!(
        pairs,
        vec![
            ("date", "02-05-2025"),
            ("expand", "tota"),
            ("version", "Rubrics 1960 - 1960"),
            ("lang2", "Polski"),
            ("votive", "Hodie"),
            ("command", "prayVesperae"),
        ]
    );
}
