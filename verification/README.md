# virsh-usb

Attaches USB devices to libvirt virtual machines: devices of the host, virtual
flash drives, and virtual HID devices that a daemon emulates over USB/IP.

The library in `src/` is verified with [Verus](https://github.com/verus-lang/verus).
It decides everything the tool does and touches nothing outside itself. An
operation is a function of the replies that the host has given so far: it says
what to ask the host next, or that it has ended. The program in `app/` performs
the requests and hands the replies back.

| Module | What it holds |
| --- | --- |
| `host` | requests, replies, and operations over them |
| `console` | running programs; the command line for devices of the host |
| `tool` | the whole command line |
| `usb`, `vm` | the host's devices and the virtual machines |
| `names`, `devices`, `registry` | virtual devices, their names, and where they are kept |
| `storage` | virtual flash drives |
| `hid`, `daemon`, `vhci` | virtual HID devices, their daemon, and the kernel's virtual host controller |
| `select` | choosing among all devices |
| `usbip`, `transfer`, `descriptor` | the USB/IP protocol, its transfers, and the USB descriptors |
| `text`, `number`, `bytes` | text, numbers and bytes |

Each function's contract says exactly what it returns for every reply. The proof
functions named `law_...` state what holds across functions: what is attached is
read back as attached, nothing is attached to or detached from a virtual machine
that is paused or stopped, names of virtual devices stay distinct, what is typed
arrives in order.

A device is attached to or detached from a virtual machine only while that runs
and is not paused. Typing and the status commands take a paused virtual machine
as running.

A virtual HID device presents itself with its own ids as a scanner: what is typed
goes out as raw ASCII, in reports of eight bytes of a vendor-defined kind, not as
the key codes of a keyboard.

## Configuration

The tool keeps its data in:

- `~/.config/virsh-usb/last_vm`: the last used virtual machine
- `~/.local/share/virsh-usb/drives.json`: the virtual drives
- `~/.local/share/virsh-usb/hids.json`: the virtual HID devices
- `~/.local/share/virsh-usb/hid-<name>.*`: the state of a device's daemon
