use go_modules::platform::{
    interrupt_label, reset_level, reset_path, ControllerTypes, Wiring, SPI_BITS_PER_WORD,
    SPI_MAX_SPEED_HZ,
};

fn paths(controller: ControllerTypes, slot: u8) -> Option<(String, String, u32)> {
    controller.wiring(slot).map(|w| (w.spi_path(), w.gpio_path(), w.gpio_line))
}

fn some(spi: &str, chip: &str, line: u32) -> Option<(String, String, u32)> {
    Some((spi.to_string(), chip.to_string(), line))
}

#[test]
fn wiring_of_the_moduline_iv() {
    let c = ControllerTypes::ModulineIV;
    assert_eq!(paths(c, 1), some("/dev/spidev1.0", "/dev/gpiochip0", 6));
    assert_eq!(paths(c, 2), some("/dev/spidev1.1", "/dev/gpiochip4", 20));
    assert_eq!(paths(c, 3), some("/dev/spidev2.0", "/dev/gpiochip0", 7));
    assert_eq!(paths(c, 4), some("/dev/spidev2.1", "/dev/gpiochip4", 21));
    assert_eq!(paths(c, 5), some("/dev/spidev2.2", "/dev/gpiochip4", 1));
    assert_eq!(paths(c, 6), some("/dev/spidev2.3", "/dev/gpiochip3", 26));
    assert_eq!(paths(c, 7), some("/dev/spidev0.0", "/dev/gpiochip2", 19));
    assert_eq!(paths(c, 8), some("/dev/spidev0.1", "/dev/gpiochip2", 22));
    assert_eq!(paths(c, 0), None);
    assert_eq!(paths(c, 9), None);
    assert_eq!(c.slot_count(), 8);
}

#[test]
fn wiring_of_the_moduline_mini() {
    let c = ControllerTypes::ModulineMini;
    assert_eq!(paths(c, 1), some("/dev/spidev1.0", "/dev/gpiochip0", 10));
    assert_eq!(paths(c, 2), some("/dev/spidev1.1", "/dev/gpiochip0", 5));
    assert_eq!(paths(c, 3), some("/dev/spidev2.0", "/dev/gpiochip3", 26));
    assert_eq!(paths(c, 4), some("/dev/spidev2.1", "/dev/gpiochip2", 19));
    assert_eq!(paths(c, 0), None);
    assert_eq!(paths(c, 5), None);
    assert_eq!(c.slot_count(), 4);
}

#[test]
fn wiring_of_the_moduline_display() {
    let c = ControllerTypes::ModulineDisplay;
    assert_eq!(paths(c, 1), some("/dev/spidev1.0", "/dev/gpiochip3", 5));
    assert_eq!(paths(c, 2), some("/dev/spidev1.1", "/dev/gpiochip0", 0));
    assert_eq!(paths(c, 0), None);
    assert_eq!(paths(c, 3), None);
    assert_eq!(paths(c, 255), None);
    assert_eq!(c.slot_count(), 2);
}

#[test]
fn slots_of_a_controller_share_no_device() {
    for c in [
        ControllerTypes::ModulineIV,
        ControllerTypes::ModulineMini,
        ControllerTypes::ModulineDisplay,
    ] {
        let wired: Vec<Wiring> = (0..=255u8).filter_map(|s| c.wiring(s)).collect();
        assert_eq!(wired.len(), c.slot_count() as usize);
        for (i, a) in wired.iter().enumerate() {
            for b in &wired[i + 1..] {
                assert_ne!((a.spi_bus, a.spi_select), (b.spi_bus, b.spi_select));
                assert_ne!((a.gpio_chip, a.gpio_line), (b.gpio_chip, b.gpio_line));
            }
        }
    }
}

#[test]
fn reset_line_of_a_slot() {
    assert_eq!(reset_path(1), "/sys/class/leds/ResetM-1/brightness");
    assert_eq!(reset_path(8), "/sys/class/leds/ResetM-8/brightness");
    assert_eq!(reset_path(120), "/sys/class/leds/ResetM-120/brightness");
    assert_eq!(reset_level(true), "255");
    assert_eq!(reset_level(false), "0");
}

#[test]
fn interrupt_line_is_requested_under_the_slot_s_name() {
    assert_eq!(interrupt_label(4), "module 4 interrupt");
}

#[test]
fn spi_settings() {
    assert_eq!(SPI_BITS_PER_WORD, 8);
    assert_eq!(SPI_MAX_SPEED_HZ, 2_000_000);
}

#[test]
fn controller_is_told_from_the_hardware_description() {
    assert_eq!(
        ControllerTypes::detect("GOcontroll Moduline IV\0"),
        Some(ControllerTypes::ModulineIV)
    );
    assert_eq!(ControllerTypes::detect("Moduline Mini"), Some(ControllerTypes::ModulineMini));
    assert_eq!(
        ControllerTypes::detect("a Moduline Display, rev 2"),
        Some(ControllerTypes::ModulineDisplay)
    );
    assert_eq!(
        ControllerTypes::detect("Moduline Mini or Moduline IV"),
        Some(ControllerTypes::ModulineIV)
    );
    assert_eq!(ControllerTypes::detect("Moduline"), None);
    assert_eq!(ControllerTypes::detect("moduline iv"), None);
    assert_eq!(ControllerTypes::detect(""), None);
}
