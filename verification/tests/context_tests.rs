use chrono::{TimeZone, Utc};
use scrybe_core::context::ics::{
    extract_attendee, parse_calendar_datetime, CalProperty, IcsFileConfig, IcsFileProvider,
    MatchWindow,
};
use scrybe_core::context::MeetingContext;

fn started_at_ms(year: i32, month: u32, day: u32, hour: u32, minute: u32) -> i64 {
    Utc.with_ymd_and_hms(year, month, day, hour, minute, 0)
        .unwrap()
        .timestamp_millis()
}

fn secs(year: i32, month: u32, day: u32, hour: u32, minute: u32) -> i64 {
    started_at_ms(year, month, day, hour, minute) / 1000
}

fn provider() -> IcsFileProvider {
    IcsFileProvider::new(IcsFileConfig {
        path: "calendar.ics".to_string(),
        match_window: MatchWindow::default(),
    })
}

#[test]
fn test_parse_calendar_datetime_handles_utc_shape() {
    assert_eq!(parse_calendar_datetime("20260429T143000Z"), Some(secs(2026, 4, 29, 14, 30)));
}

#[test]
fn test_parse_calendar_datetime_handles_floating_shape() {
    assert_eq!(parse_calendar_datetime("20260429T143000"), Some(secs(2026, 4, 29, 14, 30)));
}

#[test]
fn test_parse_calendar_datetime_handles_date_only_shape_as_midnight_utc() {
    assert_eq!(parse_calendar_datetime("20260429"), Some(secs(2026, 4, 29, 0, 0)));
}

#[test]
fn test_parse_calendar_datetime_returns_none_for_garbage() {
    assert!(parse_calendar_datetime("not a date").is_none());
}

#[test]
fn parse_calendar_datetime_trims_whitespace() {
    assert_eq!(parse_calendar_datetime("  20260429T143000Z \n"), Some(secs(2026, 4, 29, 14, 30)));
}

#[test]
fn test_ics_provider_returns_empty_context_when_file_missing_event_match() {
    let ics = "BEGIN:VCALENDAR\r\nVERSION:2.0\r\nBEGIN:VEVENT\r\nUID:1@scrybe-test\r\nDTSTART:20260101T100000Z\r\nDTEND:20260101T110000Z\r\nSUMMARY:Different day\r\nEND:VEVENT\r\nEND:VCALENDAR\r\n";
    let ctx = provider().context_from_bytes(ics.as_bytes(), started_at_ms(2026, 4, 29, 14, 30));
    assert_eq!(ctx, MeetingContext::default());
}

#[test]
fn test_ics_provider_matches_event_within_window_and_returns_summary() {
    let ics = "BEGIN:VCALENDAR\r\nVERSION:2.0\r\nBEGIN:VEVENT\r\nUID:1@scrybe-test\r\nDTSTART:20260429T143000Z\r\nSUMMARY:Acme discovery\r\nDESCRIPTION:Walk through the proposal.\r\nATTENDEE;CN=Tom Mathews:mailto:tom@example.com\r\nATTENDEE:mailto:alex@example.com\r\nEND:VEVENT\r\nEND:VCALENDAR\r\n";
    let ctx = provider().context_from_bytes(ics.as_bytes(), started_at_ms(2026, 4, 29, 14, 32));
    assert_eq!(ctx.title.as_deref(), Some("Acme discovery"));
    assert_eq!(ctx.agenda.as_deref(), Some("Walk through the proposal."));
    assert_eq!(ctx.attendees, vec!["Tom Mathews", "alex"]);
}

#[test]
fn test_ics_provider_picks_closest_event_when_multiple_match_window() {
    let ics = "BEGIN:VCALENDAR\r\nVERSION:2.0\r\nBEGIN:VEVENT\r\nUID:1@scrybe-test\r\nDTSTART:20260429T142500Z\r\nSUMMARY:Earlier match\r\nEND:VEVENT\r\nBEGIN:VEVENT\r\nUID:2@scrybe-test\r\nDTSTART:20260429T143200Z\r\nSUMMARY:Closer match\r\nEND:VEVENT\r\nEND:VCALENDAR\r\n";
    let ctx = provider().context_from_bytes(ics.as_bytes(), started_at_ms(2026, 4, 29, 14, 30));
    assert_eq!(ctx.title.as_deref(), Some("Closer match"));
}

#[test]
fn equally_close_events_keep_the_first() {
    let ics = "BEGIN:VCALENDAR\r\nVERSION:2.0\r\nBEGIN:VEVENT\r\nDTSTART:20260429T142800Z\r\nSUMMARY:Before\r\nEND:VEVENT\r\nBEGIN:VEVENT\r\nDTSTART:20260429T143200Z\r\nSUMMARY:After\r\nEND:VEVENT\r\nEND:VCALENDAR\r\n";
    let ctx = provider().context_from_bytes(ics.as_bytes(), started_at_ms(2026, 4, 29, 14, 30));
    assert_eq!(ctx.title.as_deref(), Some("Before"));
}

#[test]
fn test_ics_provider_handles_outlook_quoted_cn_format() {
    let ics = "BEGIN:VCALENDAR\r\nVERSION:2.0\r\nBEGIN:VEVENT\r\nUID:1@scrybe-test\r\nDTSTART:20260429T143000Z\r\nSUMMARY:Outlook export\r\nATTENDEE;CN=\"Tom, Mathews\":mailto:tom@example.com\r\nEND:VEVENT\r\nEND:VCALENDAR\r\n";
    let ctx = provider().context_from_bytes(ics.as_bytes(), started_at_ms(2026, 4, 29, 14, 30));
    assert_eq!(ctx.attendees, vec!["Tom, Mathews"]);
}

#[test]
fn test_ics_provider_dedupes_attendee_list() {
    let ics = "BEGIN:VCALENDAR\r\nVERSION:2.0\r\nBEGIN:VEVENT\r\nUID:1@scrybe-test\r\nDTSTART:20260429T143000Z\r\nSUMMARY:Test\r\nATTENDEE;CN=Tom:mailto:tom@example.com\r\nATTENDEE;CN=Tom:mailto:tom@example.com\r\nEND:VEVENT\r\nEND:VCALENDAR\r\n";
    let ctx = provider().context_from_bytes(ics.as_bytes(), started_at_ms(2026, 4, 29, 14, 30));
    assert_eq!(ctx.attendees, vec!["Tom"]);
}

#[test]
fn extract_attendee_falls_back_through_cn_mailto_and_raw_value() {
    let prop = |params: Option<Vec<(String, Vec<String>)>>, value: Option<&str>| CalProperty {
        name: "ATTENDEE".to_string(),
        params,
        value: value.map(str::to_string),
    };
    let cn = |v: &str| Some(vec![("cn".to_string(), vec![v.to_string()])]);
    assert_eq!(extract_attendee(&prop(cn("\"Ann \""), Some("x"))).as_deref(), Some("Ann"));
    // Quotes are stripped before whitespace, as `trim_matches('"').trim()` does.
    assert_eq!(extract_attendee(&prop(cn("  \"Ann\" "), Some("x"))).as_deref(), Some("\"Ann\""));
    assert_eq!(extract_attendee(&prop(cn("\"\""), Some("mailto:bo@x.org"))).as_deref(), Some("bo"));
    assert_eq!(extract_attendee(&prop(None, Some("mailto:@x.org"))).as_deref(), Some("@x.org"));
    assert_eq!(extract_attendee(&prop(None, Some("mailto:nobody"))).as_deref(), Some("nobody"));
    assert_eq!(extract_attendee(&prop(None, Some("Room 4"))).as_deref(), Some("Room 4"));
    assert_eq!(extract_attendee(&prop(None, None)), None);
}
