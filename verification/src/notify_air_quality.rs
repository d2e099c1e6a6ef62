//! The notification use case: format a reading into the fixed-template
//! alert message and hand it to a generic delivery capability.

use vstd::prelude::*;
use crate::models::{
    AirQualityData, AirQualityLevel, SendFailed, spec_city_state, spec_emoji, spec_from_aqi,
    spec_health_warning, spec_thai_description,
};
use crate::text::{int_dec_seq, i32_to_dec_string};

verus! {

/// The generic delivery capability: send a text to a channel. Implemented
/// outside the library by the real gateway or a test double; nothing is
/// assumed of the outcome.
pub trait NotificationGateway {
    /// Delivers the message to the channel, or reports why it could not.
    fn send(&self, channel_id: &str, message: &str) -> Result<(), SendFailed>;
}

/// The location line of a message: "city, state", or just the city when the
/// state is empty.
pub open spec fn spec_location_line(d: AirQualityData) -> Seq<char> {
    let cs = spec_city_state(d.location);
    if cs.1.len() == 0 {
        cs.0
    } else {
        cs.0 + ", "@ + cs.1
    }
}

/// The full alert message for a reading: severity glyph and label, the
/// location line, AQI and PM2.5, temperature and humidity, and the health
/// warning.
pub open spec fn spec_message(d: AirQualityData) -> Seq<char> {
    let level = spec_from_aqi(d.aqi as int);
    spec_emoji(level) + " *"@ + spec_thai_description(level) + "*\n\n📍 "@ + spec_location_line(d)
        + "\nAQI *"@ + int_dec_seq(d.aqi as int) + "* · PM2.5 "@ + int_dec_seq(d.pm25 as int)
        + " µg/m³\n🌡️ "@ + int_dec_seq(d.temperature as int) + "°C · 💧 "@ + int_dec_seq(
        d.humidity as int,
    ) + "%\n\n"@ + spec_health_warning(level)
}

/// The broadcast-formatting variant of the alert: the fixed template with a
/// timestamp line appended.
pub open spec fn spec_broadcast_message(d: AirQualityData, timestamp: Seq<char>) -> Seq<char> {
    spec_message(d) + "\n\n🕐 "@ + timestamp
}

/// Formats readings and delegates delivery; cheap to clone so both dispatch
/// paths can share one gateway handle.
pub struct NotifyAirQuality<N: NotificationGateway> {
    gateway: N,
}

impl<N: NotificationGateway + Clone> Clone for NotifyAirQuality<N> {
    /// A handle over the same gateway.
    fn clone(&self) -> Self {
        NotifyAirQuality { gateway: self.gateway.clone() }
    }
}

impl<N: NotificationGateway> NotifyAirQuality<N> {
    /// Holds exactly of the outcomes this gateway's `send` can return for a
    /// channel and a message with these views: whatever `execute` returns
    /// is such an outcome, never a result of the library's own making.
    pub closed spec fn send_outcome(
        self,
        channel_id: Seq<char>,
        message: Seq<char>,
        r: Result<(), SendFailed>,
    ) -> bool {
        exists|ch: &str, m: &str|
            ch@ == channel_id && m@ == message && #[trigger] call_ensures(
                N::send,
                (&self.gateway, ch, m),
                r,
            )
    }

    /// Builds the use case over a delivery capability.
    pub fn new(gateway: N) -> NotifyAirQuality<N> {
        NotifyAirQuality { gateway }
    }

    /// Renders the fixed-template message for a reading.
    pub fn format_message(&self, data: &AirQualityData) -> (r: String)
        ensures
            r@ == spec_message(*data),
    {
        let level = AirQualityLevel::from_aqi(data.aqi);
        let (city, state) = data.location.city_state();
        let mut out = String::from_str(level.emoji());
        out.append(" *");
        out.append(level.thai_description());
        out.append("*\n\n📍 ");
        out.append(city.as_str());
        if state.as_str().unicode_len() > 0 {
            out.append(", ");
            out.append(state.as_str());
        }
        out.append("\nAQI *");
        out.append(i32_to_dec_string(data.aqi).as_str());
        out.append("* · PM2.5 ");
        out.append(i32_to_dec_string(data.pm25).as_str());
        out.append(" µg/m³\n🌡️ ");
        out.append(i32_to_dec_string(data.temperature).as_str());
        out.append("°C · 💧 ");
        out.append(i32_to_dec_string(data.humidity).as_str());
        out.append("%\n\n");
        out.append(level.health_warning());
        proof {
            assert(out@ =~= spec_message(*data));
        }
        out
    }

    /// Renders the broadcast variant of the message: the fixed template
    /// followed by a timestamp line. The timestamp arrives as plain text
    /// from the caller's clock; the library takes no time itself.
    pub fn format_broadcast_message(&self, data: &AirQualityData, timestamp: &str) -> (r: String)
        ensures
            r@ == spec_broadcast_message(*data, timestamp@),
    {
        let mut out = self.format_message(data);
        out.append("\n\n🕐 ");
        out.append(timestamp);
        proof {
            assert(out@ =~= spec_broadcast_message(*data, timestamp@));
        }
        out
    }

    /// Formats the reading with the broadcast template — the timestamp line
    /// appended — and hands it to the gateway: the result is a `send`
    /// outcome for this channel and exactly the message
    /// `spec_broadcast_message(*data, timestamp@)`.
    pub fn execute_broadcast(&self, channel_id: &str, data: &AirQualityData, timestamp: &str) -> (r:
        Result<(), SendFailed>)
        ensures
            self.send_outcome(channel_id@, spec_broadcast_message(*data, timestamp@), r),
    {
        let message = self.format_broadcast_message(data, timestamp);
        let text: &str = message.as_str();
        let r = self.gateway.send(channel_id, text);
        proof {
            assert(self.send_outcome(channel_id@, spec_broadcast_message(*data, timestamp@), r))
                by {
                assert(channel_id@ == channel_id@ && text@ == spec_broadcast_message(
                    *data,
                    timestamp@,
                ) && call_ensures(N::send, (&self.gateway, channel_id, text), r));
            }
        }
        r
    }

    /// Formats the reading and hands it to the gateway: the result is a
    /// `send` outcome for this channel and exactly the message
    /// `spec_message(*data)` — the gateway's failure, if any, propagated
    /// unchanged.
    pub fn execute(&self, channel_id: &str, data: &AirQualityData) -> (r: Result<(), SendFailed>)
        ensures
            self.send_outcome(channel_id@, spec_message(*data), r),
    {
        let message = self.format_message(data);
        let text: &str = message.as_str();
        let r = self.gateway.send(channel_id, text);
        proof {
            assert(self.send_outcome(channel_id@, spec_message(*data), r)) by {
                assert(channel_id@ == channel_id@ && text@ == spec_message(*data)
                    && call_ensures(N::send, (&self.gateway, channel_id, text), r));
            }
        }
        r
    }
}

} // verus!
