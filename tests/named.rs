use cron_units::named::named_units;
use cron_units::unit::Period;

#[test]
fn named_daily_units() {
    let u = named_units(Period::Daily, true, "/usr/bin/run-parts", "/etc");
    assert_eq!(u.base_name, "cron-daily");
    assert_eq!(
        u.timer,
        "[Unit]\nDescription=Timer for cron-daily\n\n[Timer]\nOnCalendar=*-*-* 0:0:00\nUnit=cron-daily.service\nPersistent=true\n"
    );
    assert_eq!(
        u.service,
        "[Unit]\nDescription=cron-daily scripts\nPartOf=cron-daily.target\n\n[Service]\nType=oneshot\nExecStart=/usr/bin/run-parts /etc/cron.daily\n"
    );
    assert_eq!(
        u.target,
        "[Unit]\nDescription=cron-daily target\nStopWhenUnneeded=yes\n\n[Install]\nWantedBy=cron.target\nAlso=cron-daily.timer\n"
    );
}

#[test]
fn named_boot_and_semi_annual_units() {
    let b = named_units(Period::Reboot, false, "rp", "/etc");
    assert_eq!(b.base_name, "cron-boot");
    assert!(b.timer.contains("OnBootSec=1min\n"));
    assert!(b.service.ends_with("ExecStart=rp /etc/cron.boot\n"));
    let s = named_units(Period::SemiAnnually, false, "rp", "/etc");
    assert_eq!(s.base_name, "cron-semi-annually");
    assert!(s.timer.contains("OnCalendar=*-1,7-1 0:0:00\n"));
    assert!(!s.timer.contains("Persistent"));
}
