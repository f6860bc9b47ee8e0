//! The application's settings, and their defaults.
use vstd::prelude::*;

verus! {

/// The wireless network to join.
#[derive(Debug)]
pub struct WifiConfig<'a> {
    pub ssid: &'a str,
    pub pass: &'a str,
}

impl<'a> Default for WifiConfig<'a> {
    fn default() -> (r: Self)
        ensures
            r.ssid@ == "SSID"@,
            r.pass@ == "PASS"@,
    {
        Self { ssid: "SSID", pass: "PASS" }
    }
}

/// Where the current time is read from.
#[derive(Debug)]
pub struct TimeConfig<'a> {
    pub time_host: &'a str,
}

impl<'a> Default for TimeConfig<'a> {
    fn default() -> (r: Self)
        ensures
            r.time_host@ == "192.168.1.1:7000"@,
    {
        Self { time_host: "192.168.1.1:7000" }
    }
}

/// The account to log in with, the group to serve and its master.
#[derive(Debug)]
pub struct QQConfig<'a> {
    pub uin: i64,
    pub password: &'a str,
    pub group_code: i64,
    pub master_uin: i64,
}

impl<'a> Default for QQConfig<'a> {
    fn default() -> (r: Self)
        ensures
            r.uin == 10000,
            r.password@ == "PASSWORD"@,
            r.group_code == 10000,
            r.master_uin == 10000,
    {
        Self { uin: 10000, password: "PASSWORD", group_code: 10000, master_uin: 10000 }
    }
}

/// The MQTT broker and the topics that messages are relayed on.
#[derive(Debug)]
pub struct MQTTConfig<'a> {
    pub url: &'a str,
    pub receive_topic: &'a str,
    pub send_topic: &'a str,
}

impl<'a> Default for MQTTConfig<'a> {
    fn default() -> (r: Self)
        ensures
            r.url@ == "mqtt://192.168.1.1:1883"@,
            r.receive_topic@ == "qq/received"@,
            r.send_topic@ == "qq/send"@,
    {
        Self { url: "mqtt://192.168.1.1:1883", receive_topic: "qq/received", send_topic: "qq/send" }
    }
}

/// All the settings.
#[derive(Debug)]
pub struct AppConfig<'a> {
    pub wifi: WifiConfig<'a>,
    pub time: TimeConfig<'a>,
    pub qq: QQConfig<'a>,
    pub mqtt: Option<MQTTConfig<'a>>,
}

impl<'a> Default for AppConfig<'a> {
    fn default() -> (r: Self)
        ensures
            r.wifi.ssid@ == "SSID"@,
            r.wifi.pass@ == "PASS"@,
            r.time.time_host@ == "192.168.1.1:7000"@,
            r.qq.uin == 10000,
            r.qq.password@ == "PASSWORD"@,
            r.qq.group_code == 10000,
            r.qq.master_uin == 10000,
            r.mqtt matches Some(m) && m.url@ == "mqtt://192.168.1.1:1883"@ && m.receive_topic@
                == "qq/received"@ && m.send_topic@ == "qq/send"@,
    {
        Self {
            wifi: WifiConfig::default(),
            time: TimeConfig::default(),
            qq: QQConfig::default(),
            mqtt: Some(MQTTConfig::default()),
        }
    }
}

} // verus!
