[package]
name = "ical_event"
version = "0.1.0"
edition = "2021"

[dependencies]
chrono = "*"
dateparser = "*"
rrule = "*"
ical = "*"
