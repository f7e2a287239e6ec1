use vstd::prelude::*;

verus! {

/// Input that the device produced, as decoded from one report.
#[derive(Clone, Debug)]
pub enum AjazzInput {
    /// No data was passed from the device
    NoData,
    /// Button states, one per key
    ButtonStateChange(Vec<bool>),
    /// Encoder press states, one per encoder
    EncoderStateChange(Vec<bool>),
    /// Encoder twists, one signed tick count per encoder
    EncoderTwist(Vec<i8>),
}

/// Mathematical model of an [AjazzInput].
pub enum InputView {
    NoData,
    Buttons(Seq<bool>),
    Encoders(Seq<bool>),
    Twist(Seq<i8>),
}

impl View for AjazzInput {
    type V = InputView;

    open spec fn view(&self) -> InputView {
        match self {
            AjazzInput::NoData => InputView::NoData,
            AjazzInput::ButtonStateChange(v) => InputView::Buttons(v@),
            AjazzInput::EncoderStateChange(v) => InputView::Encoders(v@),
            AjazzInput::EncoderTwist(v) => InputView::Twist(v@),
        }
    }
}

impl AjazzInput {
    /// Checks whether no data was received.
    pub fn is_empty(&self) -> (r: bool)
        ensures
            r == (self@ is NoData),
    {
        matches!(self, AjazzInput::NoData)
    }
}

/// A change in the state of the device's controls.
#[derive(Copy, Clone, Debug, Hash, PartialEq, Eq, Structural)]
pub enum DeviceStateUpdate {
    /// Button got pressed down
    ButtonDown(u8),
    /// Button got released
    ButtonUp(u8),
    /// Encoder got pressed down
    EncoderDown(u8),
    /// Encoder was released from being pressed down
    EncoderUp(u8),
    /// Encoder was twisted by a signed number of ticks
    EncoderTwist(u8, i8),
}

} // verus!
