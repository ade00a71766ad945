use mprober_lib::network::{compute_networks_speed, get_networks, Network, NetworkStat};
use mprober_lib::volume::{
    compute_volumes_speed, get_mounts, get_volume_stats, group_mounts, Mount, Volume, VolumeStat,
};
use mprober_lib::ProbeError;

const NET_HEADER: &str =
    "Inter-|   Receive                                                |  Transmit\n face |bytes    packets errs drop fifo frame compressed multicast|bytes    packets errs drop fifo colls carrier compressed\n";

#[test]
fn networks_are_decoded_per_line() {
    let data = format!(
        "{}    lo:     100    2    0    0    0     0          0         0      300    2    0    0    0     0       0          0\n  eth0: 5000 10 0 0 0 0 0 0 7000 9 0 0 0 0 0 0\n",
        NET_HEADER
    )
    .into_bytes();
    let nets = get_networks(data).unwrap();
    assert_eq!(nets.len(), 2);
    assert_eq!(nets[0].interface, "lo");
    assert_eq!(nets[0].stat.receive_bytes, 100);
    assert_eq!(nets[0].stat.transmit_bytes, 300);
    assert_eq!(nets[1].interface, "eth0");
    assert_eq!(nets[1].stat.receive_bytes, 5000);
    assert_eq!(nets[1].stat.transmit_bytes, 7000);
}

#[test]
fn networks_need_both_header_lines() {
    assert_eq!(
        get_networks(b"only one line\n".to_vec()),
        Err(ProbeError::UnexpectedEof)
    );
}

#[test]
fn network_speed_is_bytes_per_second() {
    let a = NetworkStat { receive_bytes: 1000, transmit_bytes: 500 };
    let b = NetworkStat { receive_bytes: 3000, transmit_bytes: 500 };
    let s = a.compute_speed(&b, 1000);
    assert_eq!(s.receive, 2000);
    assert_eq!(s.transmit, 0);
    // half the interval, the same delta: twice the rate
    let s = a.compute_speed(&b, 500);
    assert_eq!(s.receive, 4000);
}

#[test]
fn network_speed_unchanged_when_interval_scales() {
    let a = NetworkStat { receive_bytes: 0, transmit_bytes: 0 };
    let b = NetworkStat { receive_bytes: 1500, transmit_bytes: 700 };
    let b2 = NetworkStat { receive_bytes: 3000, transmit_bytes: 1400 };
    let once = a.compute_speed(&b, 1000);
    let twice = a.compute_speed(&b2, 2000);
    assert_eq!(once.receive, twice.receive);
    assert_eq!(once.transmit, twice.transmit);
}

#[test]
fn network_pairing_drops_unmatched_interfaces() {
    let pre = vec![
        Network { interface: String::from("eth0"), stat: NetworkStat { receive_bytes: 0, transmit_bytes: 0 } },
        Network { interface: String::from("gone0"), stat: NetworkStat { receive_bytes: 5, transmit_bytes: 5 } },
    ];
    let post = vec![
        Network { interface: String::from("eth0"), stat: NetworkStat { receive_bytes: 4000, transmit_bytes: 2000 } },
        Network { interface: String::from("new0"), stat: NetworkStat { receive_bytes: 9, transmit_bytes: 9 } },
    ];
    let paired = compute_networks_speed(&pre, post, 2000);
    assert_eq!(paired.len(), 1);
    assert_eq!(paired[0].0.interface, "eth0");
    assert_eq!(paired[0].1.receive, 2000);
    assert_eq!(paired[0].1.transmit, 1000);
}

#[test]
fn mounts_keep_block_devices_only() {
    let data = b"/dev/sda1 / ext4 rw 0 0\nproc /proc proc rw 0 0\n/dev/mapper/vg-root /home ext4 rw 0 0\n".to_vec();
    let entries = get_mounts(data).unwrap();
    assert_eq!(entries.len(), 2);
    assert_eq!(entries[0].device, "sda1");
    assert_eq!(entries[0].point, "/");
    assert!(!entries[0].device_mapper);
    assert_eq!(entries[1].device, "mapper/vg-root");
    assert_eq!(entries[1].point, "/home");
    assert!(entries[1].device_mapper);
}

#[test]
fn grouping_joins_points_of_one_device() {
    let entries = get_mounts(
        b"/dev/sda1 / ext4 rw 0 0\n/dev/sdb1 /data ext4 rw 0 0\n/dev/sda1 /boot ext4 rw 0 0\n"
            .to_vec(),
    )
    .unwrap();
    let mounts = group_mounts(entries);
    assert_eq!(mounts.len(), 2);
    assert_eq!(mounts[0].device, "sda1");
    assert_eq!(mounts[0].points, vec!["/", "/boot"]);
    assert_eq!(mounts[1].device, "sdb1");
    assert_eq!(mounts[1].points, vec!["/data"]);
}

#[test]
fn volume_counters_join_against_the_mounts() {
    let mounts = vec![
        Mount { device: String::from("sda1"), points: vec![String::from("/")] },
        Mount { device: String::from("sdb1"), points: vec![String::from("/data")] },
    ];
    // after the device name: two skipped, reads, three skipped, writes,
    // two skipped, time spent on transfers
    let data = b"8 0 sda1 11 12 4000 14 15 16 6000 18 19 350 21\n8 16 sdb1 11 12 900 14 15 16 800 18 19 0 21\n8 32 sdc1 11 12 1 14 15 16 1 18 19 5 21 7\n".to_vec();
    let counters = get_volume_stats(data, mounts).unwrap();
    // sdb1 was never active (zero transfer time), sdc1 is not mounted
    assert_eq!(counters.len(), 1);
    assert_eq!(counters[0].device, "sda1");
    assert_eq!(counters[0].stat.read_bytes, 4000);
    assert_eq!(counters[0].stat.write_bytes, 6000);
    assert_eq!(counters[0].points, vec!["/"]);
}

#[test]
fn volumes_assemble_and_pair() {
    let mounts = vec![Mount { device: String::from("sda1"), points: vec![String::from("/")] }];
    let data = b"8 0 sda1 11 12 4000 14 15 16 6000 18 19 350 21\n".to_vec();
    let counters = get_volume_stats(data, mounts).unwrap();
    let v = Volume::assemble(counters.into_iter().next().unwrap(), 100000, 40000);
    assert_eq!(v.device, "sda1");
    assert_eq!(v.size, 100000);
    assert_eq!(v.used, 40000);
    let pre = vec![v.clone()];
    let mut later = v;
    later.stat = VolumeStat { read_bytes: 5000, write_bytes: 9000 };
    let paired = compute_volumes_speed(&pre, vec![later], 1000);
    assert_eq!(paired.len(), 1);
    assert_eq!(paired[0].1.read, 1000);
    assert_eq!(paired[0].1.write, 3000);
}

#[test]
fn volume_speed_unchanged_when_interval_scales() {
    let a = VolumeStat { read_bytes: 100, write_bytes: 100 };
    let b = VolumeStat { read_bytes: 1100, write_bytes: 350 };
    let b2 = VolumeStat { read_bytes: 3100, write_bytes: 850 };
    let once = a.compute_speed(&b, 400);
    let thrice = a.compute_speed(&b2, 1200);
    assert_eq!(once.read, thrice.read);
    assert_eq!(once.write, thrice.write);
}
