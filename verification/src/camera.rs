//! Camera framing: derive position, target and up from the aircraft frame.

use vstd::prelude::*;
use crate::plane::InputState;
use crate::plane::Plane;
use crate::plane::PlaneS;
use crate::quat::qabs_le;
use crate::quat::rotate_s;
use crate::vec3::V3;
use crate::vec3::V3s;
use crate::vec3::vabs_le;
use crate::vec3::vadd;
use crate::vec3::vadd_s;
use crate::vec3::vneg;
use crate::vec3::vneg_s;
use crate::vec3::vscale;
use crate::vec3::vscale_s;

verus! {

/// Mathematical model of a camera frame.
pub ghost struct CameraS {
    pub position: V3s,
    pub target: V3s,
    pub up: V3s,
}

/// A camera rigidly attached to the aircraft: no smoothing.
pub struct CameraFrame {
    pub position: V3,
    pub target: V3,
    pub up: V3,
}

impl View for CameraFrame {
    type V = CameraS;

    open spec fn view(&self) -> CameraS {
        CameraS { position: self.position@, target: self.target@, up: self.up@ }
    }
}

/// Where the camera stands and looks: just ahead of and above the nose in
/// cockpit view; behind, above and beside the tail in chase view.
pub open spec fn camera_spec(s: PlaneS, cockpit: bool) -> CameraS {
    let forward = rotate_s(s.orientation, V3s { x: 0, y: 0, z: -1_000_000 });
    let upv = rotate_s(s.orientation, V3s { x: 0, y: 1_000_000, z: 0 });
    if cockpit {
        CameraS {
            position: vadd_s(
                vadd_s(s.position, vscale_s(forward, 1_600_000)),
                vscale_s(upv, 400_000),
            ),
            target: vadd_s(
                vadd_s(s.position, vscale_s(forward, 14_000_000)),
                vscale_s(upv, 300_000),
            ),
            up: upv,
        }
    } else {
        let right = rotate_s(s.orientation, V3s { x: 1_000_000, y: 0, z: 0 });
        let chase = vadd_s(
            vadd_s(vscale_s(vneg_s(forward), 32_000_000), vscale_s(upv, 14_000_000)),
            vscale_s(right, 3_000_000),
        );
        CameraS {
            position: vadd_s(s.position, chase),
            target: vadd_s(s.position, vscale_s(forward, 18_000_000)),
            up: upv,
        }
    }
}

/// Snap the camera to the aircraft frame for this view mode.
pub fn update_camera(camera: &mut CameraFrame, plane: &Plane, input: &InputState)
    requires
        vabs_le(plane@.position, 100_000_000_000_000),
        qabs_le(plane@.orientation, 1_100_000),
    ensures
        final(camera)@ == camera_spec(plane@, input@.cockpit),
{
    let forward = plane.forward();
    let upv = plane.up();
    if input.cockpit {
        let fnose = vscale(&forward, 1_600_000, Ghost(18_000_000), Ghost(1_600_000));
        let unose = vscale(&upv, 400_000, Ghost(18_000_000), Ghost(400_000));
        let flook = vscale(&forward, 14_000_000, Ghost(18_000_000), Ghost(14_000_000));
        let ulook = vscale(&upv, 300_000, Ghost(18_000_000), Ghost(300_000));
        let p1 = vadd(&plane.position, &fnose);
        camera.position = vadd(&p1, &unose);
        let t1 = vadd(&plane.position, &flook);
        camera.target = vadd(&t1, &ulook);
        camera.up = upv;
    } else {
        let nf = vneg(&forward);
        let b32 = vscale(&nf, 32_000_000, Ghost(18_000_000), Ghost(32_000_000));
        let u14 = vscale(&upv, 14_000_000, Ghost(18_000_000), Ghost(14_000_000));
        let right = plane.right();
        let r3 = vscale(&right, 3_000_000, Ghost(18_000_000), Ghost(3_000_000));
        let c1 = vadd(&b32, &u14);
        let chase = vadd(&c1, &r3);
        camera.position = vadd(&plane.position, &chase);
        let faim = vscale(&forward, 18_000_000, Ghost(18_000_000), Ghost(18_000_000));
        camera.target = vadd(&plane.position, &faim);
        camera.up = upv;
    }
}

} // verus!
