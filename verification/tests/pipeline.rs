use scrap_wayland::capturable::{PipeWireCapturable, PwStreamInfo};
use scrap_wayland::pipeline::{
    asks_plain_fd, caps_string, gst_element_err, mapped_len, select_fd, PipelinePlan, StateWait,
};

fn capturable(fd: Option<i32>, physical_size: (usize, usize)) -> PipeWireCapturable {
    let stream = PwStreamInfo {
        path: 41,
        source_type: 1,
        position: (0, 0),
        size: (0, 0),
    };
    let mut c = PipeWireCapturable::for_size_probe(String::new(), fd, &stream);
    c.physical_size = physical_size;
    c
}

#[test]
fn caps_are_limited_to_a_known_size() {
    assert_eq!(
        caps_string((1920, 1080)),
        "video/x-raw(memory:DMABuf),format=BGRx,width=1920,height=1080,framerate=0/1; \
         video/x-raw(memory:DMABuf),format=RGBx,width=1920,height=1080,framerate=0/1; \
         video/x-raw,format=BGRx,width=1920,height=1080,framerate=0/1; \
         video/x-raw,format=RGBx,width=1920,height=1080,framerate=0/1"
    );
    let open = "video/x-raw(memory:DMABuf),format=BGRx,framerate=0/1; \
                video/x-raw(memory:DMABuf),format=RGBx,framerate=0/1; \
                video/x-raw,format=BGRx,framerate=0/1; \
                video/x-raw,format=RGBx,framerate=0/1";
    assert_eq!(caps_string((0, 0)), open);
    assert_eq!(caps_string((1920, 0)), open);
}

#[test]
fn every_alternative_has_the_variable_rate() {
    for size in [(0, 0), (640, 480), (0, 7), (usize::MAX, 1)] {
        let caps = caps_string(size);
        let all: Vec<&str> = caps.split("; ").collect();
        assert_eq!(all.len(), 4);
        let sized = size.0 > 0 && size.1 > 0;
        for alternative in all {
            assert!(alternative.ends_with(",framerate=0/1"));
            assert_eq!(alternative.contains(",width="), sized);
            assert_eq!(alternative.contains(",height="), sized);
        }
    }
}

#[test]
fn sizes_are_cut_to_32_bits() {
    for v in [1usize, 0x7fff_ffff, 0x8000_0000, 0x1_0000_0003, usize::MAX] {
        assert!(caps_string((v, 1)).contains(&format!(",width={},", v as i32)));
    }
}

#[test]
fn plan_tells_the_elements_what_to_do() {
    let plan = PipelinePlan::new(&capturable(Some(5), (2, 3)), Some(9), false);
    assert_eq!(plan.elements, vec!["pipewiresrc", "videoconvert", "appsink"]);
    assert_eq!(plan.fd, Some(9));
    assert_eq!(plan.path, "41");
    assert_eq!(plan.keepalive_ms, 1000);
    assert!(plan.drop_old);
    assert_eq!(plan.max_buffers, 1);
    assert_eq!(plan.caps, caps_string((2, 3)));
    let wait = StateWait {
        state_ms: 2000,
        settle_ms: 150,
    };
    assert_eq!(plan.wait, Some(wait));
    assert_eq!(PipelinePlan::new(&capturable(None, (0, 0)), None, true).wait, None);
}

#[test]
fn descriptor_has_to_be_duplicated() {
    for (fd, duplicated, used) in [
        (Some(5), Some(0), Some(0)),
        (Some(5), Some(-1), None),
        (Some(5), None, None),
        (None, Some(9), None),
        (None, None, None),
    ] {
        assert_eq!(PipelinePlan::new(&capturable(fd, (0, 0)), duplicated, true).fd, used);
    }
}

#[test]
fn missing_element_is_named() {
    assert_eq!(
        gst_element_err("pipewiresrc"),
        "wl-stage:gst-plugin:unavailable:pipewiresrc"
    );
}

#[test]
fn dma_descriptor_comes_first() {
    assert!(!asks_plain_fd(Some(3)));
    assert!(asks_plain_fd(Some(-1)));
    assert!(asks_plain_fd(None));
    for (dmabuf, plain, used) in [
        (Some(3), Some(4), Some(3)),
        (Some(-1), Some(4), Some(4)),
        (None, Some(0), Some(0)),
        (None, Some(-1), None),
        (Some(-1), None, None),
    ] {
        assert_eq!(select_fd(dmabuf, plain), used);
    }
}

#[test]
fn mapped_length_is_that_of_the_frame() {
    assert_eq!(mapped_len(3840, 2160), 3840 * 2160 * 4);
    assert_eq!(mapped_len(0, -1), 0);
}
