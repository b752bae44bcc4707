//! The controllers and how their slots are wired: which SPI device and which
//! interrupt line belong to a slot, and where its reset line is driven.

use vstd::prelude::*;
use vstd::string::*;
use crate::text::{chars_of, contains, decimal, occurs, push_decimal};

verus! {

/// The file in which the machine describes its hardware.
pub const HARDWARE_FILE: &'static str = "/sys/firmware/devicetree/base/hardware";

/// Bits per word on a module's SPI channel.
pub const SPI_BITS_PER_WORD: u8 = 8;

/// The highest clock of a module's SPI channel, in hertz.
pub const SPI_MAX_SPEED_HZ: u32 = 2_000_000;

/// The controllers that hold modules.
#[derive(Debug, Clone, Copy, PartialEq, Eq)]
pub enum ControllerTypes {
    ModulineIV,
    ModulineMini,
    ModulineDisplay,
}

/// The devices of one slot: its SPI channel, by bus and chip select, and its
/// interrupt line, by GPIO chip and line.
#[derive(Debug, Clone, Copy, PartialEq, Eq)]
pub struct Wiring {
    pub spi_bus: u8,
    pub spi_select: u8,
    pub gpio_chip: u8,
    pub gpio_line: u32,
}

/// The number of slots of `controller`.
pub open spec fn slots_of(controller: ControllerTypes) -> u8 {
    match controller {
        ControllerTypes::ModulineIV => 8,
        ControllerTypes::ModulineMini => 4,
        ControllerTypes::ModulineDisplay => 2,
    }
}

/// The table of the wiring: for each controller and slot, SPI bus, chip
/// select, GPIO chip and line.
pub open spec fn wiring_of(controller: ControllerTypes, slot: u8) -> Option<Wiring> {
    match controller {
        ControllerTypes::ModulineIV => match slot {
            1 => Some(Wiring { spi_bus: 1, spi_select: 0, gpio_chip: 0, gpio_line: 6 }),
            2 => Some(Wiring { spi_bus: 1, spi_select: 1, gpio_chip: 4, gpio_line: 20 }),
            3 => Some(Wiring { spi_bus: 2, spi_select: 0, gpio_chip: 0, gpio_line: 7 }),
            4 => Some(Wiring { spi_bus: 2, spi_select: 1, gpio_chip: 4, gpio_line: 21 }),
            5 => Some(Wiring { spi_bus: 2, spi_select: 2, gpio_chip: 4, gpio_line: 1 }),
            6 => Some(Wiring { spi_bus: 2, spi_select: 3, gpio_chip: 3, gpio_line: 26 }),
            7 => Some(Wiring { spi_bus: 0, spi_select: 0, gpio_chip: 2, gpio_line: 19 }),
            8 => Some(Wiring { spi_bus: 0, spi_select: 1, gpio_chip: 2, gpio_line: 22 }),
            _ => None,
        },
        ControllerTypes::ModulineMini => match slot {
            1 => Some(Wiring { spi_bus: 1, spi_select: 0, gpio_chip: 0, gpio_line: 10 }),
            2 => Some(Wiring { spi_bus: 1, spi_select: 1, gpio_chip: 0, gpio_line: 5 }),
            3 => Some(Wiring { spi_bus: 2, spi_select: 0, gpio_chip: 3, gpio_line: 26 }),
            4 => Some(Wiring { spi_bus: 2, spi_select: 1, gpio_chip: 2, gpio_line: 19 }),
            _ => None,
        },
        ControllerTypes::ModulineDisplay => match slot {
            1 => Some(Wiring { spi_bus: 1, spi_select: 0, gpio_chip: 3, gpio_line: 5 }),
            2 => Some(Wiring { spi_bus: 1, spi_select: 1, gpio_chip: 0, gpio_line: 0 }),
            _ => None,
        },
    }
}

/// The controller that the hardware description `hardware` names: the first
/// of the product names that stands in it.
pub open spec fn controller_of(hardware: Seq<char>) -> Option<ControllerTypes> {
    if occurs(hardware, "Moduline IV"@) {
        Some(ControllerTypes::ModulineIV)
    } else if occurs(hardware, "Moduline Mini"@) {
        Some(ControllerTypes::ModulineMini)
    } else if occurs(hardware, "Moduline Display"@) {
        Some(ControllerTypes::ModulineDisplay)
    } else {
        None
    }
}

/// The path of the SPI device of `wiring`.
pub open spec fn spi_path_of(wiring: Wiring) -> Seq<char> {
    "/dev/spidev"@ + decimal(wiring.spi_bus as nat) + "."@ + decimal(wiring.spi_select as nat)
}

/// The path of the GPIO chip of `wiring`.
pub open spec fn gpio_path_of(wiring: Wiring) -> Seq<char> {
    "/dev/gpiochip"@ + decimal(wiring.gpio_chip as nat)
}

/// The path at which the reset line of `slot` is driven.
pub open spec fn reset_path_of(slot: u8) -> Seq<char> {
    "/sys/class/leds/ResetM-"@ + decimal(slot as nat) + "/brightness"@
}

/// The name under which the interrupt line of `slot` is requested.
pub open spec fn interrupt_label_of(slot: u8) -> Seq<char> {
    "module "@ + decimal(slot as nat) + " interrupt"@
}

impl ControllerTypes {
    /// Tells the controller from the hardware description of the machine;
    /// `None` for a machine that is none of the controllers.
    pub fn detect(hardware: &str) -> (controller: Option<ControllerTypes>)
        ensures
            controller == controller_of(hardware@),
    {
        let chars = chars_of(hardware);
        if contains(chars.as_slice(), chars_of("Moduline IV").as_slice()) {
            Some(ControllerTypes::ModulineIV)
        } else if contains(chars.as_slice(), chars_of("Moduline Mini").as_slice()) {
            Some(ControllerTypes::ModulineMini)
        } else if contains(chars.as_slice(), chars_of("Moduline Display").as_slice()) {
            Some(ControllerTypes::ModulineDisplay)
        } else {
            None
        }
    }

    /// The number of slots of the controller.
    pub fn slot_count(&self) -> (count: u8)
        ensures
            count == slots_of(*self),
    {
        match self {
            ControllerTypes::ModulineIV => 8,
            ControllerTypes::ModulineMini => 4,
            ControllerTypes::ModulineDisplay => 2,
        }
    }

    /// The devices of `slot`; `None` for a slot that the controller does not
    /// have. Slots count from 1.
    pub fn wiring(&self, slot: u8) -> (wiring: Option<Wiring>)
        ensures
            wiring == wiring_of(*self, slot),
            wiring is Some <==> 1 <= slot <= slots_of(*self),
    {
        match self {
            ControllerTypes::ModulineIV => match slot {
                1 => Some(Wiring { spi_bus: 1, spi_select: 0, gpio_chip: 0, gpio_line: 6 }),
                2 => Some(Wiring { spi_bus: 1, spi_select: 1, gpio_chip: 4, gpio_line: 20 }),
                3 => Some(Wiring { spi_bus: 2, spi_select: 0, gpio_chip: 0, gpio_line: 7 }),
                4 => Some(Wiring { spi_bus: 2, spi_select: 1, gpio_chip: 4, gpio_line: 21 }),
                5 => Some(Wiring { spi_bus: 2, spi_select: 2, gpio_chip: 4, gpio_line: 1 }),
                6 => Some(Wiring { spi_bus: 2, spi_select: 3, gpio_chip: 3, gpio_line: 26 }),
                7 => Some(Wiring { spi_bus: 0, spi_select: 0, gpio_chip: 2, gpio_line: 19 }),
                8 => Some(Wiring { spi_bus: 0, spi_select: 1, gpio_chip: 2, gpio_line: 22 }),
                _ => None,
            },
            ControllerTypes::ModulineMini => match slot {
                1 => Some(Wiring { spi_bus: 1, spi_select: 0, gpio_chip: 0, gpio_line: 10 }),
                2 => Some(Wiring { spi_bus: 1, spi_select: 1, gpio_chip: 0, gpio_line: 5 }),
                3 => Some(Wiring { spi_bus: 2, spi_select: 0, gpio_chip: 3, gpio_line: 26 }),
                4 => Some(Wiring { spi_bus: 2, spi_select: 1, gpio_chip: 2, gpio_line: 19 }),
                _ => None,
            },
            ControllerTypes::ModulineDisplay => match slot {
                1 => Some(Wiring { spi_bus: 1, spi_select: 0, gpio_chip: 3, gpio_line: 5 }),
                2 => Some(Wiring { spi_bus: 1, spi_select: 1, gpio_chip: 0, gpio_line: 0 }),
                _ => None,
            },
        }
    }
}

impl Wiring {
    /// The path of the SPI device, like `/dev/spidev1.0`.
    pub fn spi_path(&self) -> (path: String)
        ensures
            path@ == spi_path_of(*self),
    {
        let mut path = String::new();
        path.append("/dev/spidev");
        push_decimal(&mut path, self.spi_bus as u32);
        path.append(".");
        push_decimal(&mut path, self.spi_select as u32);
        assert(path@ =~= spi_path_of(*self));
        path
    }

    /// The path of the GPIO chip, like `/dev/gpiochip0`.
    pub fn gpio_path(&self) -> (path: String)
        ensures
            path@ == gpio_path_of(*self),
    {
        let mut path = String::new();
        path.append("/dev/gpiochip");
        push_decimal(&mut path, self.gpio_chip as u32);
        assert(path@ =~= gpio_path_of(*self));
        path
    }
}

/// The path at which the reset line of `slot` is driven.
pub fn reset_path(slot: u8) -> (path: String)
    ensures
        path@ == reset_path_of(slot),
{
    let mut path = String::new();
    path.append("/sys/class/leds/ResetM-");
    push_decimal(&mut path, slot as u32);
    path.append("/brightness");
    assert(path@ =~= reset_path_of(slot));
    path
}

/// What is written to the reset line: `255` holds the module in reset, `0`
/// lets it run.
pub fn reset_level(held: bool) -> (level: &'static str)
    ensures
        level@ == if held {
            "255"@
        } else {
            "0"@
        },
{
    if held {
        "255"
    } else {
        "0"
    }
}

/// The name under which the interrupt line of `slot` is requested.
pub fn interrupt_label(slot: u8) -> (label: String)
    ensures
        label@ == interrupt_label_of(slot),
{
    let mut label = String::new();
    label.append("module ");
    push_decimal(&mut label, slot as u32);
    label.append(" interrupt");
    assert(label@ =~= interrupt_label_of(slot));
    label
}

/// No two slots of a controller share a device: their SPI channels differ,
/// and so do their interrupt lines. Sessions on different slots can
/// therefore not disturb each other.
pub proof fn law_slots_share_no_device(controller: ControllerTypes, a: u8, b: u8)
    requires
        a != b,
    ensures
        (wiring_of(controller, a), wiring_of(controller, b)) matches (Some(x), Some(y)) ==> {
            &&& (x.spi_bus != y.spi_bus || x.spi_select != y.spi_select)
            &&& (x.gpio_chip != y.gpio_chip || x.gpio_line != y.gpio_line)
        },
{
}

} // verus!
