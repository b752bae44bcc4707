use go_modules::policy::{
    compatible_versions, has_blank_software, is_compatible, is_later, is_upgrade, select_update,
};
use go_modules::version::FirmwareVersion;

fn v(bytes: [u8; 7]) -> FirmwareVersion {
    FirmwareVersion { firmware: bytes }
}

/// The policy written with iterators over slices, to hold the library against.
fn reference(current: &FirmwareVersion, candidates: &[FirmwareVersion]) -> Option<usize> {
    candidates
        .iter()
        .enumerate()
        .filter(|(_, c)| c.firmware[0..4] == current.firmware[0..4])
        .filter(|(_, c)| {
            (c.firmware[4..7] > current.firmware[4..7] || current.firmware[4..7] == [255u8, 255, 255])
                && c.firmware[4..7] != [255u8, 255, 255]
        })
        .map(|(i, c)| (i, &c.firmware[4..7]))
        .reduce(|acc, (i, sw)| if acc.1 < sw { (i, sw) } else { acc })
        .map(|(i, _)| i)
}

#[test]
fn newest_compatible_firmware_is_chosen() {
    let current = v([20, 10, 1, 5, 0, 0, 9]);
    let candidates = [
        v([20, 10, 1, 5, 0, 0, 8]),
        v([20, 10, 1, 5, 0, 1, 0]),
        v([20, 10, 1, 5, 1, 0, 0]),
        v([20, 10, 2, 5, 9, 9, 9]),
        v([20, 10, 1, 5, 0, 2, 255]),
    ];
    assert_eq!(select_update(&current, &candidates), Some(2));
}

#[test]
fn no_update_without_a_newer_firmware() {
    let current = v([20, 10, 1, 5, 1, 0, 0]);
    let candidates =
        [v([20, 10, 1, 5, 0, 9, 9]), v([20, 10, 1, 5, 1, 0, 0]), v([20, 10, 1, 6, 2, 0, 0])];
    assert_eq!(select_update(&current, &candidates), None);
    assert_eq!(select_update(&current, &[]), None);
}

#[test]
fn software_is_compared_byte_by_byte_from_the_first() {
    let current = v([1, 1, 1, 1, 1, 200, 200]);
    let candidates = [v([1, 1, 1, 1, 1, 201, 0]), v([1, 1, 1, 1, 2, 0, 0]), v([1, 1, 1, 1, 1, 200, 201])];
    assert_eq!(select_update(&current, &candidates), Some(1));
    assert!(is_later(&v([0, 0, 0, 0, 2, 0, 0]), &v([9, 9, 9, 9, 1, 255, 255])));
    assert!(!is_later(&v([0, 0, 0, 0, 1, 2, 3]), &v([0, 0, 0, 0, 1, 2, 3])));
    assert!(is_later(&v([0, 0, 0, 0, 1, 2, 4]), &v([0, 0, 0, 0, 1, 2, 3])));
    assert!(!is_later(&v([0, 0, 0, 0, 1, 2, 3]), &v([0, 0, 0, 0, 1, 3, 0])));
}

#[test]
fn blank_module_takes_any_firmware_for_its_hardware() {
    let current = v([20, 10, 1, 5, 255, 255, 255]);
    let candidates = [v([20, 10, 1, 5, 0, 0, 1]), v([20, 10, 1, 5, 0, 0, 3]), v([20, 10, 1, 5, 0, 0, 2])];
    assert_eq!(select_update(&current, &candidates), Some(1));
}

#[test]
fn blank_firmware_is_never_chosen() {
    let current = v([20, 10, 1, 5, 0, 0, 1]);
    assert_eq!(select_update(&current, &[v([20, 10, 1, 5, 255, 255, 255])]), None);
    let blank = v([20, 10, 1, 5, 255, 255, 255]);
    assert_eq!(select_update(&blank, &[v([20, 10, 1, 5, 255, 255, 255])]), None);
    assert!(has_blank_software(&blank));
    assert!(!has_blank_software(&v([255, 255, 255, 255, 255, 255, 254])));
}

#[test]
fn first_of_equal_candidates_is_chosen() {
    let current = v([1, 2, 3, 4, 0, 0, 0]);
    let candidates = [v([1, 2, 3, 4, 0, 0, 5]), v([1, 2, 3, 4, 0, 0, 7]), v([1, 2, 3, 4, 0, 0, 7])];
    assert_eq!(select_update(&current, &candidates), Some(1));
}

#[test]
fn choice_has_the_properties_of_the_policy() {
    let mut seed: u32 = 99;
    let mut draw = move |modulus: u32| {
        seed = seed.wrapping_mul(1103515245).wrapping_add(12345);
        ((seed >> 16) % modulus) as u8
    };
    for _ in 0..3000 {
        let mut pick = |blank: bool| {
            if blank {
                [1, 1, 1, draw(2), 255, 255, 255]
            } else {
                [1, 1, 1, draw(2), draw(3), draw(3), draw(3)]
            }
        };
        let blank_current = pick(false)[4] == 0 && pick(false)[5] == 0;
        let current = v(pick(blank_current));
        let count = pick(false)[6] as usize * 3;
        let mut candidates = Vec::new();
        for i in 0..count {
            candidates.push(v(pick(i % 5 == 4)));
        }
        let choice = select_update(&current, &candidates);
        assert_eq!(choice, reference(&current, &candidates));
        let eligible: Vec<&FirmwareVersion> =
            candidates.iter().filter(|c| is_upgrade(c, &current)).collect();
        match choice {
            None => assert!(eligible.is_empty()),
            Some(i) => {
                let c = &candidates[i];
                assert_eq!(c.get_hardware(), current.get_hardware());
                assert_ne!(c.get_software(), &[255, 255, 255]);
                assert!(
                    c.get_software() > current.get_software()
                        || current.get_software() == [255, 255, 255]
                );
                let greatest = eligible.iter().map(|x| x.get_software()).max().unwrap();
                assert_eq!(c.get_software(), greatest);
            }
        }
    }
}

#[test]
fn compatible_firmware_is_for_the_same_hardware() {
    let current = v([20, 10, 1, 5, 3, 0, 0]);
    assert!(is_compatible(&v([20, 10, 1, 5, 0, 0, 0]), &current));
    assert!(!is_compatible(&v([20, 10, 1, 6, 3, 0, 0]), &current));
    assert!(!is_compatible(&v([21, 10, 1, 5, 3, 0, 0]), &current));
    let candidates = [
        v([20, 10, 1, 5, 0, 0, 1]),
        v([20, 10, 2, 5, 0, 0, 1]),
        v([20, 10, 1, 5, 255, 255, 255]),
        v([20, 10, 1, 5, 3, 0, 0]),
    ];
    assert_eq!(
        compatible_versions(&current, &candidates),
        vec![candidates[0], candidates[2], candidates[3]]
    );
}
