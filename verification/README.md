# pidgeon

The verified core of a Modbus gateway. The gateway finds Modbus devices on
the local network and on serial ports, reads their measurements on a
schedule, keeps them in a database and pushes them to a cloud service.

`src/` is the library, verified with Verus: register encoding and parsing,
batching of register reads, the registry of devices and servers, the
queues of the per-server request tasks and what each pass over them does
(which requests stay, start over or leave), the cloud client's endpoints,
headers and timeout, configuration defaults, and the
decisions of the recurring processes (discovery, ping, measurement, push,
tariffs and clock setting).

`app/` is the program around it: configuration files and environment,
Modbus connections, the database, the cloud client and the scheduler.

`tests/` runs the library on concrete values.
